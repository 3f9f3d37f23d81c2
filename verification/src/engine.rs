use vstd::prelude::*;
use crate::errors::{Error, Origin};
use crate::ledger::{Ledger, account_eq};
use crate::locktable::{Reasons, VESTING_ID};
use crate::schedule::{VestingInfo, spec_merge, lemma_merge_wf};

verus! {

impl Ledger {
    /// What `vesting_balance` returns: the still-locked amount of the
    /// stored schedule at the current block, if there is one. `Some(0)`
    /// means fully vested, schedule pending removal.
    pub open spec fn spec_vesting_balance(self, who: int) -> Option<u64>
        recommends
            self.is_account(who),
    {
        match self.schedule_of(who) {
            Some(s) => Some(s.spec_locked_amount(self.block)),
            None => None,
        }
    }

    /// The schedule that attaching `s` to `who` will store: `s` itself, or
    /// the fold of `s` into the existing schedule.
    pub open spec fn spec_new_or_merged(self, who: int, s: VestingInfo) -> VestingInfo
        recommends
            self.is_account(who),
    {
        match self.schedule_of(who) {
            Some(cur) => spec_merge(cur, s),
            None => s,
        }
    }

    /// Folding a new schedule into `who`'s existing one stays within the
    /// balance type.
    pub open spec fn merge_fits(self, who: int, locked: u64, per_block: u64) -> bool
        recommends
            self.is_account(who),
    {
        self.schedule_of(who) matches Some(cur) ==> cur.locked + locked <= u64::MAX
            && cur.per_block + per_block <= u64::MAX
    }

    /// Settling may need to insert the vesting lock entry: the bounded
    /// table must have room whenever something is still locked.
    pub open spec fn can_settle(self, who: int) -> bool
        recommends
            self.is_account(who),
    {
        (self.spec_vesting_balance(who) matches Some(l) && l > 0) ==> self.can_hold_vesting_lock(
            who,
        )
    }

    /// What settling `who` leaves behind: at a recomputed amount of zero
    /// the schedule and the lock entry are both removed, otherwise the lock
    /// entry holds exactly the recomputed amount with both reasons set; the
    /// lock entry is absent afterwards exactly when the schedule is; no
    /// other lock, balance or account moves.
    pub open spec fn settles_to(self, post: Ledger, who: int) -> bool
        recommends
            self.is_account(who),
            self.schedule_of(who) is Some,
    {
        let locked = self.schedule_of(who)->Some_0.spec_locked_amount(self.block);
        &&& (if locked == 0 {
            post.schedule_of(who) is None && post.vesting_lock_of(who) is None
        } else {
            post.schedule_of(who) == self.schedule_of(who) && post.vesting_lock_of(who) == Some(
                locked,
            )
        })
        &&& ((post.vesting_lock_of(who) is None) <==> (post.spec_vesting_balance(who) is None))
        &&& forall|id2: u64|
            id2 != VESTING_ID ==> post.lock_of(who, id2) == self.lock_of(who, id2)
        &&& post.free_of(who) == self.free_of(who)
        &&& self.unchanged_except(post, who)
    }

    /// The machine-limit side conditions under which attaching `schedule`
    /// to `target`, paid by `source`, stays within the balance type and the
    /// lock table bound.
    pub open spec fn vested_transfer_fits(
        self,
        source: int,
        target: int,
        schedule: VestingInfo,
    ) -> bool
        recommends
            self.is_account(source),
            self.is_account(target),
    {
        &&& self.merge_fits(target, schedule.locked, schedule.per_block)
        &&& (schedule.locked >= self.min_vested_transfer && schedule.per_block > 0
            && schedule.locked > 0 ==> self.can_hold_vesting_lock(target))
        &&& (source != target && self.free_of(source) >= schedule.locked ==> self.free_of(target)
            + schedule.locked <= u64::MAX)
    }

    /// What a committed vested transfer leaves behind: the funds have moved
    /// from `source` to `target`, and `target`'s schedule and vesting lock
    /// are settled exactly as attaching `schedule` demands.
    pub open spec fn spec_vested_transfer_committed(
        self,
        post: Ledger,
        source: int,
        target: int,
        schedule: VestingInfo,
    ) -> bool
        recommends
            self.is_account(source),
            self.is_account(target),
    {
        let merged = self.spec_new_or_merged(target, schedule);
        let now_locked = merged.spec_locked_amount(self.block);
        &&& (source != target ==> post.free_of(source) == self.free_of(source) - schedule.locked
            && post.free_of(target) == self.free_of(target) + schedule.locked && post.locks_of(
            source,
        ) == self.locks_of(source) && post.schedule_of(source) == self.schedule_of(source))
        &&& (source == target ==> post.free_of(target) == self.free_of(target))
        &&& (if now_locked == 0 {
            post.schedule_of(target) is None && post.vesting_lock_of(target) is None
        } else {
            post.schedule_of(target) == Some(merged) && post.vesting_lock_of(target) == Some(
                now_locked,
            )
        })
        &&& forall|id2: u64|
            id2 != VESTING_ID ==> post.lock_of(target, id2) == self.lock_of(target, id2)
        &&& self.unchanged_except2(post, source, target)
    }

    /// `None` when `who` has no schedule; otherwise the still-locked
    /// amount at the current block.
    pub fn vesting_balance(&self, who: usize) -> (r: Option<u64>)
        requires
            self.is_account(who as int),
        ensures
            r == self.spec_vesting_balance(who as int),
    {
        match self.schedule(who) {
            Some(s) => Some(s.locked_amount(self.block)),
            None => None,
        }
    }

    /// Settles `who`'s schedule at the current block: recomputes the
    /// locked amount; at zero it removes the lock entry and deletes the
    /// schedule, otherwise it upserts the lock entry to the new amount.
    /// This is the only mutation path into the lock table for this
    /// subsystem.
    pub fn update_lock(&mut self, who: usize)
        requires
            old(self).wf(),
            old(self).is_account(who as int),
            old(self).schedule_of(who as int) is Some,
            old(self).can_settle(who as int),
        ensures
            final(self).wf(),
            old(self).settles_to(*final(self), who as int),
    {
        let s = self.schedule(who).unwrap();
        let locked = s.locked_amount(self.block);
        if locked == 0 {
            self.remove_lock(VESTING_ID, who);
            self.put_schedule(who, None);
            proof {
                assert forall|j: int|
                    0 <= j < old(self).accounts@.len() && j != who as int implies account_eq(
                    self.accounts@[j],
                    old(self).accounts@[j],
                ) by {}
            }
        } else {
            self.set_lock(VESTING_ID, who, locked, Reasons { transfer: true, reserve: true });
        }
    }

    /// Attaches a schedule to `who`: rejects an amount below the
    /// configured minimum and a schedule that locks nothing or would never
    /// unlock; folds the schedule into any existing one, stores the
    /// result, and settles the lock entry at the current block.
    pub fn add_vesting_schedule(
        &mut self,
        who: usize,
        locked: u64,
        per_block: u64,
        starting_block: u64,
    ) -> (r: Result<(), Error>)
        requires
            old(self).wf(),
            old(self).is_account(who as int),
            old(self).merge_fits(who as int, locked, per_block),
            locked >= old(self).min_vested_transfer && per_block > 0 && locked > 0 ==> old(self).can_hold_vesting_lock(who as int),
        ensures
            final(self).wf(),
            (r == Err::<(), Error>(Error::AmountLow)) <==> locked < old(self).min_vested_transfer,
            (r == Err::<(), Error>(Error::ZeroVestingPeriod)) <==> (locked >= old(self).min_vested_transfer && (per_block == 0 || locked == 0)),
            (r is Ok) <==> (locked >= old(self).min_vested_transfer && per_block > 0 && locked
                > 0),
            r is Err ==> old(self).unchanged(*final(self)),
            r is Ok ==> ({
                let merged = old(self).spec_new_or_merged(
                    who as int,
                    VestingInfo { locked, per_block, starting_block },
                );
                let now_locked = merged.spec_locked_amount(old(self).block);
                &&& (if now_locked == 0 {
                    final(self).schedule_of(who as int) is None && final(self).vesting_lock_of(
                        who as int,
                    ) is None
                } else {
                    final(self).schedule_of(who as int) == Some(merged) && final(self).vesting_lock_of(who as int) == Some(now_locked)
                })
                &&& forall|id2: u64|
                    id2 != VESTING_ID ==> final(self).lock_of(who as int, id2) == old(self).lock_of(
                        who as int,
                        id2,
                    )
                &&& final(self).free_of(who as int) == old(self).free_of(who as int)
                &&& old(self).unchanged_except(*final(self), who as int)
            }),
    {
        if locked < self.min_vested_transfer {
            return Err(Error::AmountLow);
        }
        if per_block == 0 || locked == 0 {
            return Err(Error::ZeroVestingPeriod);
        }
        let incoming = VestingInfo { locked, per_block, starting_block };
        let combined = match self.schedule(who) {
            Some(cur) => {
                proof {
                    assert(old(self).account_wf(who as int));
                    lemma_merge_wf(cur, incoming);
                }
                cur.merge(&incoming)
            },
            None => incoming,
        };
        self.put_schedule(who, Some(combined));
        let ghost mid = *self;
        self.update_lock(who);
        proof {
            assert forall|j: int|
                0 <= j < old(self).accounts@.len() && j != who as int implies account_eq(
                self.accounts@[j],
                old(self).accounts@[j],
            ) by {
                assert(account_eq(mid.accounts@[j], old(self).accounts@[j]));
                assert(account_eq(self.accounts@[j], mid.accounts@[j]));
            }
        }
        Ok(())
    }

    /// Transfers `schedule.locked` from `source` to `target` and only then
    /// attaches the schedule to `target` — the funds must exist before the
    /// lock is placed. Fails fast on a bad schedule or short funds, and
    /// commits nothing on any failure.
    fn do_vested_transfer(&mut self, source: usize, target: usize, schedule: VestingInfo) -> (r:
        Result<(), Error>)
        requires
            old(self).wf(),
            old(self).is_account(source as int),
            old(self).is_account(target as int),
            old(self).vested_transfer_fits(source as int, target as int, schedule),
        ensures
            final(self).wf(),
            (r == Err::<(), Error>(Error::AmountLow)) <==> schedule.locked < old(self).min_vested_transfer,
            (r == Err::<(), Error>(Error::ZeroVestingPeriod)) <==> (schedule.locked >= old(self).min_vested_transfer && (schedule.per_block == 0 || schedule.locked == 0)),
            (r == Err::<(), Error>(Error::InsufficientBalance)) <==> (schedule.locked >= old(self).min_vested_transfer && schedule.per_block > 0 && schedule.locked > 0 && old(self).free_of(source as int) < schedule.locked),
            (r is Ok) <==> (schedule.locked >= old(self).min_vested_transfer && schedule.per_block
                > 0 && schedule.locked > 0 && old(self).free_of(source as int) >= schedule.locked),
            r is Err ==> old(self).unchanged(*final(self)),
            r is Ok ==> old(self).spec_vested_transfer_committed(
                *final(self),
                source as int,
                target as int,
                schedule,
            ),
    {
        if schedule.locked < self.min_vested_transfer {
            return Err(Error::AmountLow);
        }
        if schedule.per_block == 0 || schedule.locked == 0 {
            return Err(Error::ZeroVestingPeriod);
        }
        match self.transfer(source, target, schedule.locked) {
            Err(e) => Err(e),
            Ok(()) => {
                let ghost mid = *self;
                let r2 = self.add_vesting_schedule(
                    target,
                    schedule.locked,
                    schedule.per_block,
                    schedule.starting_block,
                );
                proof {
                    assert(mid.schedule_of(target as int) == old(self).schedule_of(target as int));
                    assert(mid.locks_of(target as int) == old(self).locks_of(target as int));
                    assert(r2 is Ok);
                    assert forall|j: int|
                        0 <= j < old(self).accounts@.len() && j != source as int && j
                            != target as int implies account_eq(
                        self.accounts@[j],
                        old(self).accounts@[j],
                    ) by {
                        assert(account_eq(mid.accounts@[j], old(self).accounts@[j]));
                        assert(account_eq(self.accounts@[j], mid.accounts@[j]));
                    }
                    if source != target {
                        assert(account_eq(
                            self.accounts@[source as int],
                            mid.accounts@[source as int],
                        ));
                    }
                }
                Ok(())
            },
        }
    }

    /// Settles the caller's own schedule forward. Fails with `BadOrigin`
    /// for an unsigned caller and with `NotVesting` when the caller has no
    /// schedule.
    pub fn vest(&mut self, origin: Origin) -> (r: Result<(), Error>)
        requires
            old(self).wf(),
            origin matches Origin::Signed(who) ==> old(self).is_account(who as int) && old(self).can_settle(who as int),
        ensures
            final(self).wf(),
            (r == Err::<(), Error>(Error::BadOrigin)) <==> origin is Root,
            (r == Err::<(), Error>(Error::NotVesting)) <==> (origin matches Origin::Signed(who)
                && old(self).schedule_of(who as int) is None),
            (r is Ok) <==> (origin matches Origin::Signed(who) && old(self).schedule_of(who as int)
                is Some),
            r is Err ==> old(self).unchanged(*final(self)),
            r is Ok ==> old(self).settles_to(*final(self), origin->Signed_0 as int),
    {
        match origin {
            Origin::Root => Err(Error::BadOrigin),
            Origin::Signed(who) => {
                match self.schedule(who) {
                    None => Err(Error::NotVesting),
                    Some(_) => {
                        self.update_lock(who);
                        Ok(())
                    },
                }
            },
        }
    }

    /// Settles `target`'s schedule forward on `target`'s behalf; any
    /// signed caller may do so. Fails with `BadOrigin` for an unsigned
    /// caller and with `NotVesting` when `target` has no schedule.
    pub fn vest_other(&mut self, origin: Origin, target: usize) -> (r: Result<(), Error>)
        requires
            old(self).wf(),
            old(self).is_account(target as int),
            old(self).can_settle(target as int),
        ensures
            final(self).wf(),
            (r == Err::<(), Error>(Error::BadOrigin)) <==> origin is Root,
            (r == Err::<(), Error>(Error::NotVesting)) <==> (origin is Signed && old(self).schedule_of(target as int) is None),
            (r is Ok) <==> (origin is Signed && old(self).schedule_of(target as int) is Some),
            r is Err ==> old(self).unchanged(*final(self)),
            r is Ok ==> old(self).settles_to(*final(self), target as int),
    {
        match origin {
            Origin::Root => Err(Error::BadOrigin),
            Origin::Signed(_) => {
                match self.schedule(target) {
                    None => Err(Error::NotVesting),
                    Some(_) => {
                        self.update_lock(target);
                        Ok(())
                    },
                }
            },
        }
    }

    /// Sends funds and vests them in one atomic operation: the signed
    /// caller pays, `target` receives the funds under a vesting lock.
    pub fn vested_transfer(&mut self, origin: Origin, target: usize, schedule: VestingInfo) -> (r:
        Result<(), Error>)
        requires
            old(self).wf(),
            old(self).is_account(target as int),
            origin matches Origin::Signed(src) ==> old(self).is_account(src as int) && old(self).vested_transfer_fits(src as int, target as int, schedule),
        ensures
            final(self).wf(),
            (r == Err::<(), Error>(Error::BadOrigin)) <==> origin is Root,
            origin matches Origin::Signed(src) ==> {
                &&& ((r == Err::<(), Error>(Error::AmountLow)) <==> schedule.locked < old(self).min_vested_transfer)
                &&& ((r == Err::<(), Error>(Error::ZeroVestingPeriod)) <==> (schedule.locked
                    >= old(self).min_vested_transfer && (schedule.per_block == 0 || schedule.locked
                    == 0)))
                &&& ((r == Err::<(), Error>(Error::InsufficientBalance)) <==> (schedule.locked
                    >= old(self).min_vested_transfer && schedule.per_block > 0 && schedule.locked
                    > 0 && old(self).free_of(src as int) < schedule.locked))
                &&& ((r is Ok) <==> (schedule.locked >= old(self).min_vested_transfer
                    && schedule.per_block > 0 && schedule.locked > 0 && old(self).free_of(
                    src as int,
                ) >= schedule.locked))
                &&& (r is Ok ==> old(self).spec_vested_transfer_committed(
                    *final(self),
                    src as int,
                    target as int,
                    schedule,
                ))
            },
            r is Err ==> old(self).unchanged(*final(self)),
    {
        match origin {
            Origin::Root => Err(Error::BadOrigin),
            Origin::Signed(src) => self.do_vested_transfer(src, target, schedule),
        }
    }

    /// Identical effect to `vested_transfer`, but only the privileged root
    /// origin may move funds out of an arbitrary `source`; any other
    /// caller fails with `BadOrigin` and nothing moves.
    pub fn force_vested_transfer(
        &mut self,
        origin: Origin,
        source: usize,
        target: usize,
        schedule: VestingInfo,
    ) -> (r: Result<(), Error>)
        requires
            old(self).wf(),
            old(self).is_account(source as int),
            old(self).is_account(target as int),
            origin is Root ==> old(self).vested_transfer_fits(
                source as int,
                target as int,
                schedule,
            ),
        ensures
            final(self).wf(),
            (r == Err::<(), Error>(Error::BadOrigin)) <==> !(origin is Root),
            origin is Root ==> {
                &&& ((r == Err::<(), Error>(Error::AmountLow)) <==> schedule.locked < old(self).min_vested_transfer)
                &&& ((r == Err::<(), Error>(Error::ZeroVestingPeriod)) <==> (schedule.locked
                    >= old(self).min_vested_transfer && (schedule.per_block == 0 || schedule.locked
                    == 0)))
                &&& ((r == Err::<(), Error>(Error::InsufficientBalance)) <==> (schedule.locked
                    >= old(self).min_vested_transfer && schedule.per_block > 0 && schedule.locked
                    > 0 && old(self).free_of(source as int) < schedule.locked))
                &&& ((r is Ok) <==> (schedule.locked >= old(self).min_vested_transfer
                    && schedule.per_block > 0 && schedule.locked > 0 && old(self).free_of(
                    source as int,
                ) >= schedule.locked))
                &&& (r is Ok ==> old(self).spec_vested_transfer_committed(
                    *final(self),
                    source as int,
                    target as int,
                    schedule,
                ))
            },
            r is Err ==> old(self).unchanged(*final(self)),
    {
        match origin {
            Origin::Signed(_) => Err(Error::BadOrigin),
            Origin::Root => self.do_vested_transfer(source, target, schedule),
        }
    }
}

} // verus!
