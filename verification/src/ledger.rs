use vstd::prelude::*;
use crate::errors::Error;
use crate::locktable::{
    Lock, Reasons, VESTING_ID, spec_find_lock, locks_wf, upsert_lock, remove_lock_entry, get_lock,
};
use crate::schedule::VestingInfo;

verus! {

/// Everything the ledger keeps for one account: its free balance, its
/// bounded lock table, and its optional vesting schedule.
pub struct Account {
    pub free: u64,
    pub locks: Vec<Lock>,
    pub schedule: Option<VestingInfo>,
}

/// Two accounts hold the same state.
pub open spec fn account_eq(a: Account, b: Account) -> bool {
    a.free == b.free && a.locks@ == b.locks@ && a.schedule == b.schedule
}

/// The in-memory ledger: one account record per index, the host's block
/// counter, and the two configured bounds. Accounts are identified by
/// their index.
pub struct Ledger {
    pub accounts: Vec<Account>,
    /// The current block height, supplied from outside and monotonically
    /// advanced by the host.
    pub block: u64,
    /// The least amount a vesting schedule may lock.
    pub min_vested_transfer: u64,
    /// The most lock entries one account may hold.
    pub max_locks: usize,
}

impl Ledger {
    pub open spec fn n_accounts(self) -> int {
        self.accounts@.len() as int
    }

    pub open spec fn is_account(self, who: int) -> bool {
        0 <= who < self.accounts@.len()
    }

    pub open spec fn free_of(self, who: int) -> u64
        recommends
            self.is_account(who),
    {
        self.accounts@[who].free
    }

    pub open spec fn locks_of(self, who: int) -> Seq<Lock>
        recommends
            self.is_account(who),
    {
        self.accounts@[who].locks@
    }

    pub open spec fn schedule_of(self, who: int) -> Option<VestingInfo>
        recommends
            self.is_account(who),
    {
        self.accounts@[who].schedule
    }

    /// The lock entry keyed `id` on `who`, if any.
    pub open spec fn lock_of(self, who: int, id: u64) -> Option<Lock>
        recommends
            self.is_account(who),
    {
        spec_find_lock(self.locks_of(who), id)
    }

    /// The amount held by `who`'s vesting lock entry, if the entry exists.
    pub open spec fn vesting_lock_of(self, who: int) -> Option<u64>
        recommends
            self.is_account(who),
    {
        match self.lock_of(who, VESTING_ID) {
            Some(l) => Some(l.amount),
            None => None,
        }
    }

    /// The bounded lock table can take the vesting lock entry: either it is
    /// already there, or there is room for one more entry.
    pub open spec fn can_hold_vesting_lock(self, who: int) -> bool
        recommends
            self.is_account(who),
    {
        self.lock_of(who, VESTING_ID) is Some || self.locks_of(who).len() < self.max_locks
    }

    /// One account's invariant: its lock table is keyed and within the
    /// bound, and a stored schedule is well-formed.
    pub open spec fn account_wf(self, who: int) -> bool
        recommends
            self.is_account(who),
    {
        &&& locks_wf(self.locks_of(who))
        &&& self.locks_of(who).len() <= self.max_locks
        &&& (self.schedule_of(who) matches Some(s) ==> s.wf())
    }

    /// The ledger's invariant: every account's invariant.
    pub open spec fn wf(self) -> bool {
        forall|who: int| self.is_account(who) ==> #[trigger] self.account_wf(who)
    }

    /// Accounts other than `who` are untouched, and the account set, block
    /// height and configuration are unchanged.
    pub open spec fn unchanged_except(self, post: Ledger, who: int) -> bool {
        &&& post.accounts@.len() == self.accounts@.len()
        &&& post.block == self.block
        &&& post.min_vested_transfer == self.min_vested_transfer
        &&& post.max_locks == self.max_locks
        &&& forall|j: int|
            0 <= j < self.accounts@.len() && j != who ==> account_eq(
                #[trigger] post.accounts@[j],
                self.accounts@[j],
            )
    }

    /// Accounts other than `a` and `b` are untouched, and the account set,
    /// block height and configuration are unchanged.
    pub open spec fn unchanged_except2(self, post: Ledger, a: int, b: int) -> bool {
        &&& post.accounts@.len() == self.accounts@.len()
        &&& post.block == self.block
        &&& post.min_vested_transfer == self.min_vested_transfer
        &&& post.max_locks == self.max_locks
        &&& forall|j: int|
            0 <= j < self.accounts@.len() && j != a && j != b ==> account_eq(
                #[trigger] post.accounts@[j],
                self.accounts@[j],
            )
    }

    /// Nothing at all changed.
    pub open spec fn unchanged(self, post: Ledger) -> bool {
        &&& post.accounts@.len() == self.accounts@.len()
        &&& post.block == self.block
        &&& post.min_vested_transfer == self.min_vested_transfer
        &&& post.max_locks == self.max_locks
        &&& forall|j: int|
            0 <= j < self.accounts@.len() ==> account_eq(
                #[trigger] post.accounts@[j],
                self.accounts@[j],
            )
    }

    /// A fresh ledger: `count` accounts holding nothing, no locks, no
    /// schedules, at block zero.
    pub fn new(count: usize, min_vested_transfer: u64, max_locks: usize) -> (r: Ledger)
        ensures
            r.wf(),
            r.n_accounts() == count,
            r.block == 0,
            r.min_vested_transfer == min_vested_transfer,
            r.max_locks == max_locks,
            forall|who: int| r.is_account(who) ==> #[trigger] r.free_of(who) == 0,
            forall|who: int| r.is_account(who) ==> #[trigger] r.schedule_of(who) is None,
            forall|who: int| r.is_account(who) ==> #[trigger] r.locks_of(who).len() == 0,
    {
        let mut accounts: Vec<Account> = Vec::new();
        let mut k: usize = 0;
        while k < count
            invariant
                k <= count,
                accounts@.len() == k,
                forall|j: int|
                    0 <= j < k ==> (#[trigger] accounts@[j]).free == 0 && accounts@[j].schedule
                        is None && accounts@[j].locks@.len() == 0,
            decreases count - k,
        {
            accounts.push(Account { free: 0, locks: Vec::new(), schedule: None });
            k = k + 1;
        }
        Ledger { accounts, block: 0, min_vested_transfer, max_locks }
    }

    /// The host's block counter drives `now`; the host sets it from
    /// outside, the engine never advances it itself.
    pub fn set_block_number(&mut self, n: u64)
        ensures
            *final(self) == (Ledger { block: n, ..*old(self) }),
            old(self).wf() ==> final(self).wf(),
    {
        self.block = n;
        proof {
            if old(self).wf() {
                assert forall|w: int| self.is_account(w) implies #[trigger] self.account_wf(w) by {
                    assert(old(self).account_wf(w));
                    assert(self.accounts@[w] == old(self).accounts@[w]);
                }
            }
        }
    }

    /// Sets an account's free balance outright, as the host does when it
    /// endows an account.
    pub fn make_free_balance_be(&mut self, who: usize, amount: u64)
        requires
            old(self).wf(),
            old(self).is_account(who as int),
        ensures
            final(self).wf(),
            final(self).free_of(who as int) == amount,
            final(self).locks_of(who as int) == old(self).locks_of(who as int),
            final(self).schedule_of(who as int) == old(self).schedule_of(who as int),
            old(self).unchanged_except(*final(self), who as int),
    {
        let a = &mut self.accounts[who];
        a.free = amount;
        proof {
            assert forall|w: int| self.is_account(w) implies #[trigger] self.account_wf(w) by {
                if w != who as int {
                    assert(self.accounts@[w] == old(self).accounts@[w]);
                }
                assert(old(self).account_wf(w));
            }
        }
    }

    /// The free balance of `who`.
    pub fn free_balance(&self, who: usize) -> (r: u64)
        requires
            self.is_account(who as int),
        ensures
            r == self.free_of(who as int),
    {
        self.accounts[who].free
    }

    /// Moves `amount` from `from` to `to`. Fails with
    /// `InsufficientBalance` exactly when `from` cannot cover it, and
    /// commits nothing on failure.
    pub fn transfer(&mut self, from: usize, to: usize, amount: u64) -> (r: Result<(), Error>)
        requires
            old(self).wf(),
            old(self).is_account(from as int),
            old(self).is_account(to as int),
            from != to && old(self).free_of(from as int) >= amount ==> old(self).free_of(to as int)
                + amount <= u64::MAX,
        ensures
            final(self).wf(),
            (r is Err) <==> old(self).free_of(from as int) < amount,
            r matches Err(e) ==> e == Error::InsufficientBalance,
            r is Err ==> old(self).unchanged(*final(self)),
            r is Ok && from == to ==> old(self).unchanged(*final(self)),
            r is Ok && from != to ==> {
                &&& final(self).free_of(from as int) == old(self).free_of(from as int) - amount
                &&& final(self).free_of(to as int) == old(self).free_of(to as int) + amount
                &&& final(self).locks_of(from as int) == old(self).locks_of(from as int)
                &&& final(self).locks_of(to as int) == old(self).locks_of(to as int)
                &&& final(self).schedule_of(from as int) == old(self).schedule_of(from as int)
                &&& final(self).schedule_of(to as int) == old(self).schedule_of(to as int)
                &&& old(self).unchanged_except2(*final(self), from as int, to as int)
            },
    {
        let src_free = self.accounts[from].free;
        if src_free < amount {
            return Err(Error::InsufficientBalance);
        }
        if from == to {
            return Ok(());
        }
        let a = &mut self.accounts[from];
        let a_free = a.free;
        a.free = a_free - amount;
        let b = &mut self.accounts[to];
        let b_free = b.free;
        b.free = b_free + amount;
        proof {
            assert forall|w: int| self.is_account(w) implies #[trigger] self.account_wf(w) by {
                if w != from as int && w != to as int {
                    assert(self.accounts@[w] == old(self).accounts@[w]);
                }
                assert(old(self).account_wf(w));
            }
        }
        Ok(())
    }

    /// Upserts the lock entry keyed `id` on `who`, as the balances
    /// collaborator does. The bounded table must have room unless the
    /// entry already exists.
    pub fn set_lock(&mut self, id: u64, who: usize, amount: u64, reasons: Reasons)
        requires
            old(self).wf(),
            old(self).is_account(who as int),
            old(self).lock_of(who as int, id) is Some || old(self).locks_of(who as int).len()
                < old(self).max_locks,
        ensures
            final(self).wf(),
            final(self).lock_of(who as int, id) == Some(Lock { id, amount, reasons }),
            forall|id2: u64|
                id2 != id ==> final(self).lock_of(who as int, id2) == old(self).lock_of(
                    who as int,
                    id2,
                ),
            final(self).locks_of(who as int).len() == if old(self).lock_of(who as int, id)
                is Some {
                old(self).locks_of(who as int).len() as int
            } else {
                old(self).locks_of(who as int).len() as int + 1
            },
            final(self).free_of(who as int) == old(self).free_of(who as int),
            final(self).schedule_of(who as int) == old(self).schedule_of(who as int),
            old(self).unchanged_except(*final(self), who as int),
    {
        proof {
            assert(old(self).account_wf(who as int));
        }
        let a = &mut self.accounts[who];
        upsert_lock(&mut a.locks, id, amount, reasons);
        proof {
            assert forall|w: int| self.is_account(w) implies #[trigger] self.account_wf(w) by {
                if w != who as int {
                    assert(self.accounts@[w] == old(self).accounts@[w]);
                }
                assert(old(self).account_wf(w));
            }
        }
    }

    /// Removes the lock entry keyed `id` on `who`, if any, as the balances
    /// collaborator does.
    pub fn remove_lock(&mut self, id: u64, who: usize)
        requires
            old(self).wf(),
            old(self).is_account(who as int),
        ensures
            final(self).wf(),
            final(self).lock_of(who as int, id) is None,
            forall|id2: u64|
                id2 != id ==> final(self).lock_of(who as int, id2) == old(self).lock_of(
                    who as int,
                    id2,
                ),
            final(self).locks_of(who as int).len() == if old(self).lock_of(who as int, id)
                is Some {
                old(self).locks_of(who as int).len() - 1
            } else {
                old(self).locks_of(who as int).len() as int
            },
            final(self).free_of(who as int) == old(self).free_of(who as int),
            final(self).schedule_of(who as int) == old(self).schedule_of(who as int),
            old(self).unchanged_except(*final(self), who as int),
    {
        proof {
            assert(old(self).account_wf(who as int));
        }
        let a = &mut self.accounts[who];
        remove_lock_entry(&mut a.locks, id);
        proof {
            assert forall|w: int| self.is_account(w) implies #[trigger] self.account_wf(w) by {
                if w != who as int {
                    assert(self.accounts@[w] == old(self).accounts@[w]);
                }
                assert(old(self).account_wf(w));
            }
        }
    }

    /// The stored schedule of `who`, if any.
    pub fn schedule(&self, who: usize) -> (r: Option<VestingInfo>)
        requires
            self.is_account(who as int),
        ensures
            r == self.schedule_of(who as int),
    {
        self.accounts[who].schedule
    }

    /// The amount currently held by `who`'s vesting lock entry, if the
    /// entry exists.
    pub fn vesting_lock(&self, who: usize) -> (r: Option<u64>)
        requires
            self.is_account(who as int),
        ensures
            r == self.vesting_lock_of(who as int),
    {
        match get_lock(&self.accounts[who].locks, VESTING_ID) {
            Some(l) => Some(l.amount),
            None => None,
        }
    }

    /// How many lock entries `who` holds.
    pub fn lock_count(&self, who: usize) -> (r: usize)
        requires
            self.is_account(who as int),
        ensures
            r == self.locks_of(who as int).len(),
    {
        self.accounts[who].locks.len()
    }

    /// Stores, replaces or clears `who`'s schedule record.
    pub(crate) fn put_schedule(&mut self, who: usize, s: Option<VestingInfo>)
        requires
            old(self).wf(),
            old(self).is_account(who as int),
            s matches Some(v) ==> v.wf(),
        ensures
            final(self).wf(),
            final(self).schedule_of(who as int) == s,
            final(self).free_of(who as int) == old(self).free_of(who as int),
            final(self).locks_of(who as int) == old(self).locks_of(who as int),
            old(self).unchanged_except(*final(self), who as int),
    {
        let a = &mut self.accounts[who];
        a.schedule = s;
        proof {
            assert forall|w: int| self.is_account(w) implies #[trigger] self.account_wf(w) by {
                if w != who as int {
                    assert(self.accounts@[w] == old(self).accounts@[w]);
                }
                assert(old(self).account_wf(w));
            }
        }
    }
}

} // verus!
