//! A small association list from [`Principal`] to copyable records, with
//! pairwise-distinct keys.  Per-user balances, per-strategy health records and
//! the oracle's target allocations are all stored this way; iteration order is
//! insertion order, which the rebalance engine relies on.

use vstd::prelude::*;

use crate::principal::Principal;

verus! {

/// No key occurs twice.
pub open spec fn keys_distinct<V>(s: Seq<(Principal, V)>) -> bool {
    forall|i: int, j: int| 0 <= i < j < s.len() ==> s[i].0 != s[j].0
}

/// Some entry carries the key `p`.
pub open spec fn has_key<V>(s: Seq<(Principal, V)>, p: Principal) -> bool {
    exists|i: int| 0 <= i < s.len() && s[i].0 == p
}

/// The position of the entry carrying `p` (meaningful when `has_key` holds
/// and keys are distinct).
pub open spec fn key_index<V>(s: Seq<(Principal, V)>, p: Principal) -> int {
    choose|i: int| 0 <= i < s.len() && s[i].0 == p
}

/// The value stored under `p`, if any.
pub open spec fn map_get<V>(s: Seq<(Principal, V)>, p: Principal) -> Option<V> {
    if has_key(s, p) {
        Some(s[key_index(s, p)].1)
    } else {
        None
    }
}

/// With distinct keys, the entry at any index holding key `p` is the one
/// `map_get` returns.
pub proof fn lemma_get_at<V>(s: Seq<(Principal, V)>, p: Principal, i: int)
    requires
        keys_distinct(s),
        0 <= i < s.len(),
        s[i].0 == p,
    ensures
        map_get(s, p) == Some(s[i].1),
        key_index(s, p) == i,
{
    assert(has_key(s, p));
    let j = key_index(s, p);
    assert(0 <= j < s.len() && s[j].0 == p);
    if i < j {
        assert(s[i].0 != s[j].0);
    } else if j < i {
        assert(s[j].0 != s[i].0);
    }
}

/// A key-value store keyed by principal: insertion-ordered, distinct keys.
pub struct PrincipalMap<V> {
    pub entries: Vec<(Principal, V)>,
}

impl<V> View for PrincipalMap<V> {
    type V = Seq<(Principal, V)>;

    open spec fn view(&self) -> Seq<(Principal, V)> {
        self.entries@
    }
}

impl<V: Copy> PrincipalMap<V> {
    /// The store's invariant: no key occurs twice.
    pub open spec fn wf(&self) -> bool {
        keys_distinct(self@)
    }

    pub fn new() -> (r: Self)
        ensures
            r.wf(),
            r@.len() == 0,
    {
        PrincipalMap { entries: Vec::new() }
    }

    pub fn len(&self) -> (n: usize)
        ensures
            n == self@.len(),
    {
        self.entries.len()
    }

    /// The entry at position `i`, in insertion order.
    pub fn at(&self, i: usize) -> (r: (Principal, V))
        requires
            i < self@.len(),
        ensures
            r == self@[i as int],
    {
        self.entries[i]
    }

    /// The position of the entry carrying `p`, if any.
    fn find(&self, p: Principal) -> (r: Option<usize>)
        ensures
            match r {
                Some(i) => i < self@.len() && self@[i as int].0 == p,
                None => !has_key(self@, p),
            },
    {
        let mut i: usize = 0;
        while i < self.entries.len()
            invariant
                i <= self@.len(),
                forall|j: int| 0 <= j < i ==> self@[j].0 != p,
            decreases self@.len() - i,
        {
            if self.entries[i].0 == p {
                return Some(i);
            }
            i = i + 1;
        }
        None
    }

    pub fn contains(&self, p: Principal) -> (r: bool)
        ensures
            r == has_key(self@, p),
    {
        self.find(p).is_some()
    }

    pub fn get(&self, p: Principal) -> (r: Option<V>)
        requires
            self.wf(),
        ensures
            r == map_get(self@, p),
    {
        match self.find(p) {
            Some(i) => {
                proof {
                    lemma_get_at(self@, p, i as int);
                }
                Some(self.entries[i].1)
            },
            None => None,
        }
    }

    /// Stores `v` under `p`, replacing any previous value; a fresh key is
    /// appended at the end of the iteration order.
    pub fn set(&mut self, p: Principal, v: V)
        requires
            old(self).wf(),
        ensures
            final(self).wf(),
            map_get(final(self)@, p) == Some(v),
            forall|q: Principal| q != p ==> map_get(final(self)@, q) == map_get(old(self)@, q),
            has_key(old(self)@, p) ==> final(self)@.len() == old(self)@.len(),
            !has_key(old(self)@, p) ==> final(self)@ == old(self)@.push((p, v)),
    {
        let ghost s0 = self@;
        match self.find(p) {
            Some(i) => {
                self.entries[i] = (p, v);
                proof {
                    let s1 = self@;
                    assert(s1 == s0.update(i as int, (p, v)));
                    assert(keys_distinct(s1));
                    lemma_get_at(s1, p, i as int);
                    assert forall|q: Principal| q != p implies map_get(s1, q) == map_get(s0, q) by {
                        if has_key(s0, q) {
                            let j = key_index(s0, q);
                            assert(s0[j].0 == q);
                            assert(j != i);
                            assert(s1[j].0 == q);
                            lemma_get_at(s0, q, j);
                            lemma_get_at(s1, q, j);
                        } else {
                            assert forall|j: int| 0 <= j < s1.len() implies s1[j].0 != q by {
                                if j != i {
                                    assert(s0[j].0 != q);
                                }
                            }
                            assert(!has_key(s1, q));
                        }
                    }
                }
            },
            None => {
                self.entries.push((p, v));
                proof {
                    let s1 = self@;
                    assert(s1 == s0.push((p, v)));
                    assert(s1[s1.len() - 1].0 == p);
                    assert forall|i: int, j: int| 0 <= i < j < s1.len() implies s1[i].0 != s1[j].0 by {
                        if j < s1.len() - 1 {
                            assert(s0[i].0 != s0[j].0);
                        } else {
                            assert(s1[i] == s0[i]);
                            assert(s0[i].0 != p);
                        }
                    }
                    lemma_get_at(s1, p, s1.len() - 1);
                    assert forall|q: Principal| q != p implies map_get(s1, q) == map_get(s0, q) by {
                        if has_key(s0, q) {
                            let j = key_index(s0, q);
                            lemma_get_at(s0, q, j);
                            lemma_get_at(s1, q, j);
                        } else {
                            assert forall|j: int| 0 <= j < s1.len() implies s1[j].0 != q by {
                                if j < s1.len() - 1 {
                                    assert(s0[j].0 != q);
                                }
                            }
                            assert(!has_key(s1, q));
                        }
                    }
                }
            },
        }
    }

    /// Removes the entry carrying `p`, if any; the order of the remaining
    /// entries is unchanged.
    pub fn remove(&mut self, p: Principal)
        requires
            old(self).wf(),
        ensures
            final(self).wf(),
            map_get(final(self)@, p) == None::<V>,
            forall|q: Principal| q != p ==> map_get(final(self)@, q) == map_get(old(self)@, q),
    {
        let ghost s0 = self@;
        match self.find(p) {
            Some(i) => {
                self.entries.remove(i);
                proof {
                    let s1 = self@;
                    assert(s1 == s0.remove(i as int));
                    assert forall|a: int, b: int| 0 <= a < b < s1.len() implies s1[a].0 != s1[b].0 by {
                        let a0 = if a < i { a } else { a + 1 };
                        let b0 = if b < i { b } else { b + 1 };
                        assert(s1[a] == s0[a0] && s1[b] == s0[b0]);
                        assert(s0[a0].0 != s0[b0].0);
                    }
                    assert forall|j: int| 0 <= j < s1.len() implies s1[j].0 != p by {
                        let j0 = if j < i { j } else { j + 1 };
                        assert(s1[j] == s0[j0]);
                        if j0 != i {
                            assert(s0[j0].0 != s0[i as int].0 || s0[i as int].0 != s0[j0].0);
                        }
                    }
                    assert(!has_key(s1, p));
                    assert forall|q: Principal| q != p implies map_get(s1, q) == map_get(s0, q) by {
                        if has_key(s0, q) {
                            let j = key_index(s0, q);
                            lemma_get_at(s0, q, j);
                            assert(j != i);
                            let j1 = if j < i { j } else { j - 1 };
                            assert(s1[j1] == s0[j]);
                            lemma_get_at(s1, q, j1);
                        } else {
                            assert forall|j: int| 0 <= j < s1.len() implies s1[j].0 != q by {
                                let j0 = if j < i { j } else { j + 1 };
                                assert(s1[j] == s0[j0]);
                            }
                            assert(!has_key(s1, q));
                        }
                    }
                }
            },
            None => {
                proof {
                    assert(!has_key(s0, p));
                }
            },
        }
    }
}

} // verus!
