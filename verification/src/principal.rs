use vstd::prelude::*;

verus! {

/// An opaque on-ledger identity: a user, the admin, the oracle, the treasury,
/// a token contract or a strategy module.  The vault core only ever compares
/// principals for equality; how a principal proves it authorized a call is the
/// caller's concern.
#[derive(Clone, Copy, Debug, PartialEq, Eq, Structural)]
pub struct Principal(pub u64);

/// No principal occurs twice.
pub open spec fn distinct_principals(s: Seq<Principal>) -> bool {
    forall|i: int, j: int| 0 <= i < j < s.len() ==> s[i] != s[j]
}

/// The position of the first occurrence of `p` in `v`, if any.
pub fn find_principal(v: &Vec<Principal>, p: Principal) -> (r: Option<usize>)
    ensures
        match r {
            Some(i) => i < v@.len() && v@[i as int] == p,
            None => !v@.contains(p),
        },
{
    let mut i: usize = 0;
    while i < v.len()
        invariant
            i <= v@.len(),
            forall|j: int| 0 <= j < i ==> v@[j] != p,
        decreases v@.len() - i,
    {
        if v[i] == p {
            return Some(i);
        }
        i = i + 1;
    }
    assert(!v@.contains(p));
    None
}

/// Whether `v` holds `p`.
pub fn contains_principal(v: &Vec<Principal>, p: Principal) -> (r: bool)
    ensures
        r == v@.contains(p),
{
    find_principal(v, p).is_some()
}

/// An owned copy of a principal list.
pub fn copy_principals(v: &Vec<Principal>) -> (r: Vec<Principal>)
    ensures
        r@ == v@,
{
    let mut out: Vec<Principal> = Vec::new();
    let mut i: usize = 0;
    while i < v.len()
        invariant
            i <= v@.len(),
            out@ == v@.take(i as int),
        decreases v@.len() - i,
    {
        out.push(v[i]);
        proof {
            assert(out@ == v@.take(i + 1));
        }
        i = i + 1;
    }
    proof {
        assert(out@ == v@.take(v@.len() as int));
        assert(v@.take(v@.len() as int) == v@);
    }
    out
}

} // verus!
