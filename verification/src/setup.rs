use vstd::prelude::*;
use crate::errors::Error;
use crate::ledger::{Ledger, account_eq};
use crate::locktable::{Lock, Reasons, VESTING_ID};
use crate::schedule::VestingInfo;

verus! {

/// The standard configuration the scenario tests run under, mirroring a
/// small test runtime: ten lock slots per account, and a minimum vested
/// transfer of twice the smallest deposit of 256.
#[derive(Clone, Copy, PartialEq, Eq, Structural, Debug)]
pub struct Test;

impl Test {
    /// The least amount a vesting schedule may lock under this
    /// configuration.
    pub fn min_vested_transfer() -> (r: u64)
        ensures
            r == 512,
    {
        512
    }

    /// The most lock entries one account may hold under this
    /// configuration.
    pub fn max_locks() -> (r: usize)
        ensures
            r == 10,
    {
        10
    }

    /// A fresh ledger with `count` empty accounts under this
    /// configuration.
    pub fn build(count: usize) -> (r: Ledger)
        ensures
            r.wf(),
            r.n_accounts() == count,
            r.block == 0,
            r.min_vested_transfer == 512,
            r.max_locks == 10,
            forall|who: int| r.is_account(who) ==> #[trigger] r.free_of(who) == 0,
            forall|who: int| r.is_account(who) ==> #[trigger] r.schedule_of(who) is None,
            forall|who: int| r.is_account(who) ==> #[trigger] r.locks_of(who).len() == 0,
    {
        Ledger::new(count, Self::min_vested_transfer(), Self::max_locks())
    }
}

/// Puts `n` unrelated locks, keyed by the counters `0` to `n - 1`, of 100
/// units each with both reasons set, on an account whose lock table is
/// still empty.
pub fn add_locks(ledger: &mut Ledger, who: usize, n: u8)
    requires
        old(ledger).wf(),
        old(ledger).is_account(who as int),
        old(ledger).locks_of(who as int).len() == 0,
        n as int <= old(ledger).max_locks,
    ensures
        final(ledger).wf(),
        final(ledger).locks_of(who as int).len() == n,
        forall|id: u64|
            id < n ==> final(ledger).lock_of(who as int, id) == Some(
                Lock { id, amount: 100, reasons: Reasons { transfer: true, reserve: true } },
            ),
        forall|id: u64| id >= n ==> final(ledger).lock_of(who as int, id) is None,
        final(ledger).free_of(who as int) == old(ledger).free_of(who as int),
        final(ledger).schedule_of(who as int) == old(ledger).schedule_of(who as int),
        old(ledger).unchanged_except(*final(ledger), who as int),
{
    let mut k: u8 = 0;
    while k < n
        invariant
            k <= n,
            ledger.wf(),
            ledger.is_account(who as int),
            n as int <= ledger.max_locks,
            ledger.locks_of(who as int).len() == k,
            forall|id: u64|
                id < k ==> ledger.lock_of(who as int, id) == Some(
                    Lock { id, amount: 100, reasons: Reasons { transfer: true, reserve: true } },
                ),
            forall|id: u64| id >= k ==> ledger.lock_of(who as int, id) is None,
            ledger.free_of(who as int) == old(ledger).free_of(who as int),
            ledger.schedule_of(who as int) == old(ledger).schedule_of(who as int),
            old(ledger).unchanged_except(*ledger, who as int),
        decreases n - k,
    {
        let lock_id = k as u64;
        let ghost mid = *ledger;
        ledger.set_lock(lock_id, who, 100, Reasons { transfer: true, reserve: true });
        proof {
            assert forall|j: int|
                0 <= j < old(ledger).accounts@.len() && j != who as int implies account_eq(
                ledger.accounts@[j],
                old(ledger).accounts@[j],
            ) by {
                assert(account_eq(mid.accounts@[j], old(ledger).accounts@[j]));
                assert(account_eq(ledger.accounts@[j], mid.accounts@[j]));
            }
        }
        k = k + 1;
    }
}

/// Drives the ledger to block zero and attaches the standard schedule —
/// 100 locked, 10 unlocking per block, starting at block one — so that
/// the account is vesting from the next block on.
pub fn add_vesting_schedule(ledger: &mut Ledger, who: usize) -> (r: Result<(), Error>)
    requires
        old(ledger).wf(),
        old(ledger).is_account(who as int),
        old(ledger).schedule_of(who as int) is None,
        old(ledger).min_vested_transfer <= 100,
        old(ledger).can_hold_vesting_lock(who as int),
    ensures
        final(ledger).wf(),
        r is Ok,
        final(ledger).block == 0,
        final(ledger).schedule_of(who as int) == Some(
            VestingInfo { locked: 100, per_block: 10, starting_block: 1 },
        ),
        final(ledger).vesting_lock_of(who as int) == Some(100u64),
        final(ledger).spec_vesting_balance(who as int) == Some(100u64),
        forall|id2: u64|
            id2 != VESTING_ID ==> final(ledger).lock_of(who as int, id2) == old(ledger).lock_of(
                who as int,
                id2,
            ),
        final(ledger).free_of(who as int) == old(ledger).free_of(who as int),
        final(ledger).n_accounts() == old(ledger).n_accounts(),
        final(ledger).min_vested_transfer == old(ledger).min_vested_transfer,
        final(ledger).max_locks == old(ledger).max_locks,
        forall|j: int|
            0 <= j < old(ledger).accounts@.len() && j != who as int ==> account_eq(
                #[trigger] final(ledger).accounts@[j],
                old(ledger).accounts@[j],
            ),
{
    ledger.set_block_number(0);
    let ghost mid = *ledger;
    proof {
        assert(mid.accounts@ == old(ledger).accounts@);
        assert forall|w: int| mid.is_account(w) implies #[trigger] mid.account_wf(w) by {
            assert(old(ledger).account_wf(w));
        }
    }
    let r = ledger.add_vesting_schedule(who, 100, 10, 1);
    proof {
        assert(r is Ok);
    }
    r
}

} // verus!
