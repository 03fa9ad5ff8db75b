//! The withdrawal queue: large withdrawals are parked for batched processing
//! instead of settling immediately.  Queuing only records the request —
//! no funds move and no balance changes; processing settles entries
//! oldest-first by the same share/asset math as immediate withdrawal, at the
//! totals as of the processing call; cancellation removes a user's first
//! entry, which alone fully reverses the queuing.

use vstd::prelude::*;

use crate::accounting::{convert_fits, spec_convert_to_assets};
use crate::errors::Error;
use crate::pmap::{has_key, key_index, lemma_get_at, map_get, PrincipalMap};
use crate::principal::Principal;
use crate::state::{lemma_balances_nonneg_after_set, VolatilityShield};
use crate::types::QueuedWithdrawal;

verus! {

/// What `queue_withdraw` returns, for every state and input.
pub open spec fn queue_result(s: VolatilityShield, from: Principal, shares: int) -> Result<
    (),
    Error,
> {
    let ts = s.total_shares as int;
    let ta = s.total_assets as int;
    let assets = spec_convert_to_assets(ts, ta, shares);
    let bal = s.spec_balance(from);
    if s.paused {
        Err(Error::ContractPaused)
    } else if shares <= 0 {
        Err(Error::NegativeAmount)
    } else if bal < shares {
        Err(Error::InsufficientShares)
    } else if ts != 0 && ta != 0 && !convert_fits(ta, shares) {
        Err(Error::Overflow)
    } else if assets <= s.withdraw_queue_threshold {
        Err(Error::BelowQueueThreshold)
    } else {
        Ok(())
    }
}

/// The shares requested by a batch of queued withdrawals.
pub open spec fn sum_shares(entries: Seq<QueuedWithdrawal>) -> int
    decreases entries.len(),
{
    if entries.len() == 0 {
        0
    } else {
        sum_shares(entries.drop_last()) + entries.last().shares
    }
}

/// The asset value of a batch of queued withdrawals, each converted at the
/// same fixed totals.
pub open spec fn sum_assets(ts0: int, ta0: int, entries: Seq<QueuedWithdrawal>) -> int
    decreases entries.len(),
{
    if entries.len() == 0 {
        0
    } else {
        sum_assets(ts0, ta0, entries.drop_last()) + spec_convert_to_assets(
            ts0,
            ta0,
            entries.last().shares as int,
        )
    }
}

/// The shares that settling a batch burns from `u`'s balance.
pub open spec fn settled_shares_of(entries: Seq<QueuedWithdrawal>, u: Principal) -> int
    decreases entries.len(),
{
    if entries.len() == 0 {
        0
    } else {
        settled_shares_of(entries.drop_last(), u) + if entries.last().user == u {
            entries.last().shares as int
        } else {
            0
        }
    }
}

/// The running per-user debit a settlement pass has accumulated, read from
/// its scratch book.
pub open spec fn debit_of(s: Seq<(Principal, i128)>, u: Principal) -> int {
    match map_get(s, u) {
        Some(d) => d as int,
        None => 0,
    }
}

/// The first thing that goes wrong when settling entry `k` of a batch
/// against the state `s`, if anything: an out-of-range conversion or
/// exhausted totals refuse with `Overflow`; a user balance that cannot cover
/// the burned shares refuses with `InsufficientShares`.
pub open spec fn entry_error(s: VolatilityShield, entries: Seq<QueuedWithdrawal>, k: int) -> Option<
    Error,
> {
    let ts0 = s.total_shares as int;
    let ta0 = s.total_assets as int;
    let e = entries[k];
    if ts0 != 0 && ta0 != 0 && !convert_fits(ta0, e.shares as int) {
        Some(Error::Overflow)
    } else if sum_shares(entries.take(k + 1)) > ts0 {
        Some(Error::Overflow)
    } else if sum_assets(ts0, ta0, entries.take(k + 1)) > ta0 {
        Some(Error::Overflow)
    } else if settled_shares_of(entries.take(k + 1), e.user) > s.spec_balance(e.user) {
        Some(Error::InsufficientShares)
    } else {
        None
    }
}

/// Whether a batch of queued withdrawals settles cleanly against `s`: no
/// entry runs into an error.
pub open spec fn process_ok(s: VolatilityShield, entries: Seq<QueuedWithdrawal>) -> bool {
    forall|k: int| 0 <= k < entries.len() ==> #[trigger] entry_error(s, entries, k) is None
}

/// The prefix of the queue that a processing call with the given limit
/// settles.
pub open spec fn process_batch(s: VolatilityShield, limit: u32) -> Seq<QueuedWithdrawal> {
    s.pending_withdrawals@.take(
        vstd::math::min(limit as int, s.pending_withdrawals@.len() as int),
    )
}

/// Some queued entry belongs to `u`.
pub open spec fn has_entry_for(entries: Seq<QueuedWithdrawal>, u: Principal) -> bool {
    exists|i: int| 0 <= i < entries.len() && entries[i].user == u
}

/// `i` is the position of `u`'s first queued entry.
pub open spec fn is_first_for(entries: Seq<QueuedWithdrawal>, u: Principal, i: int) -> bool {
    &&& 0 <= i < entries.len()
    &&& entries[i].user == u
    &&& forall|j: int| 0 <= j < i ==> entries[j].user != u
}

/// Nobody's settled shares are negative when every entry asks for a
/// non-negative number of shares.
proof fn lemma_settled_nonneg(entries: Seq<QueuedWithdrawal>, u: Principal)
    requires
        forall|i: int| 0 <= i < entries.len() ==> (#[trigger] entries[i]).shares >= 0,
    ensures
        settled_shares_of(entries, u) >= 0,
    decreases entries.len(),
{
    if entries.len() > 0 {
        lemma_settled_nonneg(entries.drop_last(), u);
    }
}

/// A non-negative share amount converts to a non-negative asset amount.
proof fn lemma_entry_assets_nonneg(ts0: int, ta0: int, shares: int)
    requires
        ts0 >= 0,
        ta0 >= 0,
        shares >= 0,
    ensures
        spec_convert_to_assets(ts0, ta0, shares) >= 0,
{
    if ts0 != 0 && ta0 != 0 {
        assert(spec_convert_to_assets(ts0, ta0, shares) >= 0) by (nonlinear_arith)
            requires
                ts0 >= 1,
                ta0 >= 0,
                shares >= 0,
        ;
    }
}

/// A conversion whose intermediate product stays in range yields a value in
/// range.
proof fn lemma_entry_assets_in_range(ts0: int, ta0: int, shares: int)
    requires
        ts0 >= 0,
        ta0 >= 0,
        0 <= shares <= i128::MAX,
        ts0 != 0 && ta0 != 0 ==> convert_fits(ta0, shares),
    ensures
        0 <= spec_convert_to_assets(ts0, ta0, shares) <= i128::MAX,
{
    lemma_entry_assets_nonneg(ts0, ta0, shares);
    if ts0 != 0 && ta0 != 0 {
        assert(shares * ta0 / ts0 <= shares * ta0) by (nonlinear_arith)
            requires
                ts0 >= 1,
                ta0 >= 0,
                shares >= 0,
        ;
    }
}

impl VolatilityShield {
    /// The position of `user`'s first queued entry, if any.
    fn find_entry(&self, user: Principal) -> (r: Option<usize>)
        ensures
            match r {
                Some(i) => is_first_for(self.pending_withdrawals@, user, i as int),
                None => !has_entry_for(self.pending_withdrawals@, user),
            },
    {
        let mut i: usize = 0;
        while i < self.pending_withdrawals.len()
            invariant
                i <= self.pending_withdrawals@.len(),
                forall|j: int| 0 <= j < i ==> self.pending_withdrawals@[j].user != user,
            decreases self.pending_withdrawals@.len() - i,
        {
            if self.pending_withdrawals[i].user == user {
                return Some(i);
            }
            i = i + 1;
        }
        None
    }

    /// Parks a withdrawal request of `shares` from an authenticated `from`
    /// on the queue, timestamped `now`.  The request's asset value must
    /// strictly exceed the queue threshold — smaller withdrawals must go
    /// through the immediate path.  Queuing moves no funds and changes no
    /// balance: it only appends the entry.  The caller verifies `from`'s
    /// authorization.
    pub fn queue_withdraw(&mut self, from: Principal, shares: i128, now: u64) -> (r: Result<
        (),
        Error,
    >)
        requires
            old(self).wf(),
        ensures
            final(self).wf(),
            r == queue_result(*old(self), from, shares as int),
            r.is_err() ==> *final(self) == *old(self),
            r.is_ok() ==> final(self).pending_withdrawals@ == old(self).pending_withdrawals@.push(
                (QueuedWithdrawal { user: from, shares, timestamp: now }),
            ) && final(self).eq_accounting(old(self)) && final(self).eq_roles(old(self))
                && final(self).eq_limits(old(self)) && final(self).eq_operational(old(self))
                && final(self).eq_strategies(old(self)) && final(self).eq_governance(old(self)),
    {
        if self.paused {
            return Err(Error::ContractPaused);
        }
        if shares <= 0 {
            return Err(Error::NegativeAmount);
        }
        let current_balance = self.balance(from);
        if current_balance < shares {
            return Err(Error::InsufficientShares);
        }
        let assets_to_withdraw = match self.convert_to_assets(shares) {
            Ok(a) => a,
            Err(e) => {
                return Err(e);
            },
        };
        if assets_to_withdraw <= self.withdraw_queue_threshold {
            return Err(Error::BelowQueueThreshold);
        }
        self.pending_withdrawals.push(QueuedWithdrawal { user: from, shares, timestamp: now });
        Ok(())
    }

    /// Settles up to `limit` queued withdrawals, oldest first, by the same
    /// share/asset math as immediate withdrawal: each entry's shares convert
    /// at the totals as of this call, the totals shrink by the settled
    /// amounts, and each settled user's balance drops by the entry's shares.
    /// Entries beyond the limit stay queued verbatim.  Admin-only.  Returns
    /// the settlements — one `(user, assets)` pair per processed entry, in
    /// queue order — which the caller must pay out from the vault.  If any
    /// entry's settlement would overflow, exhaust the totals, or burn more
    /// shares than its user holds, the whole call refuses with that entry's
    /// error and nothing changes.
    pub fn process_queued_withdrawals(&mut self, caller: Principal, limit: u32) -> (r: Result<
        Vec<(Principal, i128)>,
        Error,
    >)
        requires
            old(self).wf(),
        ensures
            final(self).wf(),
            r.is_err() ==> *final(self) == *old(self),
            (r == Err::<Vec<(Principal, i128)>, Error>(Error::Unauthorized)) <==> caller != old(self).admin,
            caller == old(self).admin ==> ((r matches Ok(_)) <==> process_ok(
                *old(self),
                process_batch(*old(self), limit),
            )),
            caller == old(self).admin ==> forall|k: int|
                0 <= k < process_batch(*old(self), limit).len() && (#[trigger] entry_error(
                    *old(self),
                    process_batch(*old(self), limit),
                    k,
                )) is Some && (forall|j: int|
                    0 <= j < k ==> entry_error(*old(self), process_batch(*old(self), limit), j)
                        is None) ==> r == Err::<Vec<(Principal, i128)>, Error>(
                    entry_error(*old(self), process_batch(*old(self), limit), k)->Some_0,
                ),
            match r {
                Ok(settlements) => {
                    let batch = process_batch(*old(self), limit);
                    let n = batch.len() as int;
                    &&& settlements@.len() == n
                    &&& forall|i: int|
                        0 <= i < n ==> #[trigger] settlements@[i] == (
                        old(self).pending_withdrawals@[i].user,
                        spec_convert_to_assets(
                            old(self).total_shares as int,
                            old(self).total_assets as int,
                            old(self).pending_withdrawals@[i].shares as int,
                        ) as i128,
                        )
                    &&& final(self).pending_withdrawals@ == old(self).pending_withdrawals@.skip(n)
                    &&& final(self).total_shares == old(self).total_shares - sum_shares(batch)
                    &&& final(self).total_assets == old(self).total_assets - sum_assets(
                        old(self).total_shares as int,
                        old(self).total_assets as int,
                        batch,
                    )
                    &&& forall|u: Principal|
                        final(self).spec_balance(u) == old(self).spec_balance(u)
                            - settled_shares_of(batch, u)
                    &&& final(self).eq_roles(old(self))
                    &&& final(self).eq_limits(old(self))
                    &&& final(self).eq_operational(old(self))
                    &&& final(self).eq_strategies(old(self))
                    &&& final(self).eq_governance(old(self))
                },
                Err(_) => true,
            },
    {
        if caller != self.admin {
            return Err(Error::Unauthorized);
        }
        let ghost entries = self.pending_withdrawals@;
        let len = self.pending_withdrawals.len();
        let n: usize = if (limit as usize) < len {
            limit as usize
        } else {
            len
        };
        let ghost batch = entries.take(n as int);
        proof {
            assert(batch == process_batch(*old(self), limit));
        }
        let ts0 = self.total_shares;
        let ta0 = self.total_assets;
        let mut settlements: Vec<(Principal, i128)> = Vec::new();
        let mut debits: PrincipalMap<i128> = PrincipalMap::new();
        let mut running_ts = ts0;
        let mut running_ta = ta0;
        let mut k: usize = 0;
        while k < n
            invariant
                *self == *old(self),
                self.wf(),
                caller == old(self).admin,
                entries == self.pending_withdrawals@,
                ts0 == self.total_shares,
                ta0 == self.total_assets,
                n <= entries.len(),
                n as int == vstd::math::min(limit as int, entries.len() as int),
                batch == entries.take(n as int),
                batch == process_batch(*old(self), limit),
                k <= n,
                settlements@.len() == k,
                forall|i: int|
                    0 <= i < k ==> #[trigger] settlements@[i] == (
                    entries[i].user,
                    spec_convert_to_assets(ts0 as int, ta0 as int, entries[i].shares as int) as i128,
                    ),
                running_ts == ts0 - sum_shares(entries.take(k as int)),
                running_ta == ta0 - sum_assets(ts0 as int, ta0 as int, entries.take(k as int)),
                running_ts >= 0,
                running_ta >= 0,
                debits.wf(),
                forall|u: Principal|
                    #[trigger] debit_of(debits@, u) == settled_shares_of(
                        entries.take(k as int),
                        u,
                    ),
                forall|u: Principal|
                    #[trigger] settled_shares_of(entries.take(k as int), u) <= self.spec_balance(u),
                forall|j: int| 0 <= j < k ==> #[trigger] entry_error(*old(self), batch, j) is None,
            decreases n - k,
        {
            proof {
                assert(entries.take(k + 1).drop_last() =~= entries.take(k as int));
                assert(entries.take(k + 1).last() == entries[k as int]);
                assert(batch[k as int] == entries[k as int]);
                assert(batch.take(k + 1) =~= entries.take(k + 1));
            }
            let e = self.pending_withdrawals[k];
            let assets = match self.convert_to_assets(e.shares) {
                Ok(a) => a,
                Err(_) => {
                    proof {
                        assert(entry_error(*old(self), batch, k as int) == Some(Error::Overflow));
                        assert(!process_ok(*old(self), batch));
                    }
                    return Err(Error::Overflow);
                },
            };
            proof {
                lemma_entry_assets_in_range(ts0 as int, ta0 as int, e.shares as int);
                assert(assets as int == spec_convert_to_assets(
                    ts0 as int,
                    ta0 as int,
                    e.shares as int,
                ));
            }
            if e.shares > running_ts {
                proof {
                    assert(sum_shares(entries.take(k + 1)) > ts0);
                    assert(entry_error(*old(self), batch, k as int) == Some(Error::Overflow));
                    assert(!process_ok(*old(self), batch));
                }
                return Err(Error::Overflow);
            }
            running_ts = running_ts - e.shares;
            if assets > running_ta {
                proof {
                    assert(sum_assets(ts0 as int, ta0 as int, entries.take(k + 1)) > ta0);
                    assert(entry_error(*old(self), batch, k as int) == Some(Error::Overflow));
                    assert(!process_ok(*old(self), batch));
                }
                return Err(Error::Overflow);
            }
            running_ta = running_ta - assets;
            let prev_debit = match debits.get(e.user) {
                Some(d) => d,
                None => 0,
            };
            proof {
                lemma_settled_nonneg(entries.take(k as int), e.user);
                assert(settled_shares_of(entries.take(k + 1), e.user) == settled_shares_of(
                    entries.take(k as int),
                    e.user,
                ) + e.shares);
                assert(debit_of(debits@, e.user) == prev_debit);
                assert(prev_debit as int == settled_shares_of(entries.take(k as int), e.user));
                assert(self.spec_balance(e.user) <= i128::MAX);
            }
            let user_balance = self.balance(e.user);
            proof {
                assert(sum_shares(entries.take(k + 1)) <= ts0);
                assert(sum_assets(ts0 as int, ta0 as int, entries.take(k + 1)) <= ta0);
            }
            let new_debit = match prev_debit.checked_add(e.shares) {
                Some(v) => v,
                None => {
                    proof {
                        assert(settled_shares_of(entries.take(k + 1), e.user) > old(
                            self,
                        ).spec_balance(e.user));
                        assert(entry_error(*old(self), batch, k as int) == Some(
                            Error::InsufficientShares,
                        ));
                        assert(!process_ok(*old(self), batch));
                    }
                    return Err(Error::InsufficientShares);
                },
            };
            if new_debit > user_balance {
                proof {
                    assert(settled_shares_of(entries.take(k + 1), e.user) > old(self).spec_balance(
                        e.user,
                    ));
                    assert(entry_error(*old(self), batch, k as int) == Some(
                        Error::InsufficientShares,
                    ));
                    assert(!process_ok(*old(self), batch));
                }
                return Err(Error::InsufficientShares);
            }
            let ghost debits0 = debits@;
            debits.set(e.user, new_debit);
            settlements.push((e.user, assets));
            proof {
                assert forall|u: Principal|
                    #[trigger] debit_of(debits@, u) == settled_shares_of(
                        entries.take(k + 1),
                        u,
                    ) by {
                    if u != e.user {
                        assert(entries.take(k + 1).last().user != u);
                        assert(settled_shares_of(entries.take(k + 1), u) == settled_shares_of(
                            entries.take(k + 1).drop_last(),
                            u,
                        ));
                        assert(settled_shares_of(entries.take(k + 1), u) == settled_shares_of(
                            entries.take(k as int),
                            u,
                        ));
                        assert(debit_of(debits0, u) == settled_shares_of(
                            entries.take(k as int),
                            u,
                        ));
                    }
                }
                assert forall|u: Principal|
                    #[trigger] settled_shares_of(entries.take(k + 1), u) <= self.spec_balance(
                        u,
                    ) by {
                    if u != e.user {
                        assert(entries.take(k + 1).last().user != u);
                        assert(settled_shares_of(entries.take(k + 1), u) == settled_shares_of(
                            entries.take(k + 1).drop_last(),
                            u,
                        ));
                        assert(settled_shares_of(entries.take(k + 1), u) == settled_shares_of(
                            entries.take(k as int),
                            u,
                        ));
                    } else {
                        assert(settled_shares_of(entries.take(k + 1), e.user) == new_debit);
                    }
                }
            }
            k = k + 1;
        }
        proof {
            assert(entries.take(n as int) == batch);
        }
        let mut remaining: Vec<QueuedWithdrawal> = Vec::new();
        let mut j: usize = n;
        while j < len
            invariant
                *self == *old(self),
                entries == self.pending_withdrawals@,
                len == entries.len(),
                n <= j <= len,
                remaining@ == entries.subrange(n as int, j as int),
            decreases len - j,
        {
            remaining.push(self.pending_withdrawals[j]);
            proof {
                assert(remaining@ =~= entries.subrange(n as int, j + 1));
            }
            j = j + 1;
        }
        proof {
            assert(remaining@ =~= entries.skip(n as int));
        }
        let m = debits.len();
        let mut di: usize = 0;
        while di < m
            invariant
                self.wf(),
                m == debits@.len(),
                di <= m,
                debits.wf(),
                forall|u: Principal| #[trigger] debit_of(debits@, u) == settled_shares_of(batch, u),
                forall|u: Principal|
                    #[trigger] settled_shares_of(batch, u) <= old(self).spec_balance(u),
                forall|i: int| 0 <= i < batch.len() ==> (#[trigger] batch[i]).shares > 0,
                self.total_shares == old(self).total_shares,
                self.total_assets == old(self).total_assets,
                self.eq_roles(old(self)),
                self.eq_limits(old(self)),
                self.eq_operational(old(self)),
                self.eq_strategies(old(self)),
                self.eq_governance(old(self)),
                self.eq_queue(old(self)),
                forall|i: int|
                    0 <= i < di ==> self.spec_balance((#[trigger] debits@[i]).0) == old(self).spec_balance(debits@[i].0) - debits@[i].1,
                forall|u: Principal|
                    (forall|i: int| 0 <= i < di ==> (#[trigger] debits@[i]).0 != u)
                        ==> self.spec_balance(u) == old(self).spec_balance(u),
            decreases m - di,
        {
            let entry = debits.at(di);
            proof {
                assert(self.spec_balance(entry.0) == old(self).spec_balance(entry.0)) by {
                    assert forall|i: int| 0 <= i < di implies (#[trigger] debits@[i]).0
                        != entry.0 by {
                        assert(debits@[i].0 != debits@[di as int].0);
                    }
                }
                lemma_get_at(debits@, entry.0, di as int);
                lemma_settled_nonneg(batch, entry.0);
                assert(debit_of(debits@, entry.0) == entry.1);
            }
            let bal = self.balance(entry.0);
            proof {
                assert(entry.1 >= 0);
                assert(entry.1 <= bal);
            }
            let ghost b0 = self.balances@;
            self.balances.set(entry.0, bal - entry.1);
            proof {
                lemma_balances_nonneg_after_set(
                    b0,
                    self.balances@,
                    entry.0,
                    (bal - entry.1) as i128,
                );
                assert forall|i: int|
                    0 <= i < di + 1 implies self.spec_balance((#[trigger] debits@[i]).0) == old(self).spec_balance(debits@[i].0) - debits@[i].1 by {
                    if i < di as int {
                        assert(debits@[i].0 != debits@[di as int].0);
                    }
                }
            }
            di = di + 1;
        }
        proof {
            assert forall|u: Principal|
                self.spec_balance(u) == old(self).spec_balance(u) - settled_shares_of(
                    batch,
                    u,
                ) by {
                if has_key(debits@, u) {
                    let i = key_index(debits@, u);
                    lemma_get_at(debits@, u, i);
                    assert(self.spec_balance((debits@[i]).0) == old(self).spec_balance(
                        debits@[i].0,
                    ) - debits@[i].1);
                    assert(debit_of(debits@, u) == debits@[i].1 as int);
                    assert(debits@[i].1 as int == settled_shares_of(batch, u));
                } else {
                    assert(debit_of(debits@, u) == 0);
                    assert forall|i: int| 0 <= i < m implies (#[trigger] debits@[i]).0 != u by {
                        if debits@[i].0 == u {
                            assert(has_key(debits@, u));
                        }
                    }
                }
            }
        }
        self.total_shares = running_ts;
        self.total_assets = running_ta;
        self.pending_withdrawals = remaining;
        Ok(settlements)
    }

    /// Removes an authenticated `from`'s first queued entry.  Queuing only
    /// recorded the request — no funds moved and no balance changed — so the
    /// removal alone fully reverses it, with no effect on any balance or
    /// asset.  The caller verifies `from`'s authorization.
    pub fn cancel_queued_withdrawal(&mut self, from: Principal) -> (r: Result<(), Error>)
        requires
            old(self).wf(),
        ensures
            final(self).wf(),
            r.is_err() ==> *final(self) == *old(self),
            (r == Err::<(), Error>(Error::WithdrawalNotFound)) <==> !has_entry_for(
                old(self).pending_withdrawals@,
                from,
            ),
            (r matches Ok(_)) <==> has_entry_for(old(self).pending_withdrawals@, from),
            forall|i: int|
                is_first_for(old(self).pending_withdrawals@, from, i) ==> final(self).pending_withdrawals@ == old(self).pending_withdrawals@.remove(i),
            r.is_ok() ==> final(self).eq_accounting(old(self)) && final(self).eq_roles(old(self))
                && final(self).eq_limits(old(self)) && final(self).eq_operational(old(self))
                && final(self).eq_strategies(old(self)) && final(self).eq_governance(old(self)),
    {
        let ghost entries = self.pending_withdrawals@;
        let index = match self.find_entry(from) {
            Some(fi) => fi,
            None => {
                return Err(Error::WithdrawalNotFound);
            },
        };
        self.pending_withdrawals.remove(index);
        proof {
            assert(has_entry_for(entries, from)) by {
                assert(entries[index as int].user == from);
            }
            assert forall|ii: int| is_first_for(entries, from, ii) implies ii == index as int by {
                if ii < index as int {
                    assert(entries[ii].user != from);
                } else if ii > index as int {
                    assert(entries[index as int].user != from);
                }
            }
            let q1 = self.pending_withdrawals@;
            assert forall|i: int| 0 <= i < q1.len() implies (#[trigger] q1[i]).shares > 0 by {
                let i0 = if i < index as int {
                    i
                } else {
                    i + 1
                };
                assert(q1[i] == entries[i0]);
            }
        }
        Ok(())
    }
}

} // verus!
