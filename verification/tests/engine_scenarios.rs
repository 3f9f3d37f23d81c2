use vesting::errors::{Error, Origin};
use vesting::ledger::Ledger;
use vesting::schedule::VestingInfo;
use vesting::setup::{add_locks, add_vesting_schedule, Test};

// The standard schedule used by the scenario builders: 100 locked, 10 per
// block, starting at block 1. These runs use a ledger whose configured
// minimum is at or below that amount so the builder succeeds.

#[test]
fn test_benchmarks() {
    // vest_locked: at block zero everything is still locked, vesting is a no-op.
    for l in 0..10u8 {
        let mut ledger = Ledger::new(1, 100, 10);
        let caller: usize = 0;
        ledger.make_free_balance_be(caller, u64::MAX);
        add_locks(&mut ledger, caller, l);
        add_vesting_schedule(&mut ledger, caller).unwrap();
        ledger.set_block_number(0);
        assert_eq!(ledger.vesting_balance(caller), Some(100), "Vesting schedule not added");
        ledger.vest(Origin::Signed(caller)).unwrap();
        assert_eq!(ledger.vesting_balance(caller), Some(100), "Vesting schedule was removed");
    }

    // vest_unlocked: at block 20 everything has unlocked, vesting removes the schedule.
    for l in 0..10u8 {
        let mut ledger = Ledger::new(1, 100, 10);
        let caller: usize = 0;
        ledger.make_free_balance_be(caller, u64::MAX);
        add_locks(&mut ledger, caller, l);
        add_vesting_schedule(&mut ledger, caller).unwrap();
        ledger.set_block_number(20);
        assert_eq!(ledger.vesting_balance(caller), Some(0), "Vesting schedule still active");
        ledger.vest(Origin::Signed(caller)).unwrap();
        assert_eq!(ledger.vesting_balance(caller), None, "Vesting schedule was not removed");
    }

    // vest_other_locked: anyone may settle another account; nothing unlocks yet.
    for l in 0..10u8 {
        let mut ledger = Ledger::new(2, 100, 10);
        let other: usize = 1;
        ledger.make_free_balance_be(other, u64::MAX);
        add_locks(&mut ledger, other, l);
        add_vesting_schedule(&mut ledger, other).unwrap();
        ledger.set_block_number(0);
        assert_eq!(ledger.vesting_balance(other), Some(100), "Vesting schedule not added");
        let caller: usize = 0;
        ledger.vest_other(Origin::Signed(caller), other).unwrap();
        assert_eq!(ledger.vesting_balance(other), Some(100), "Vesting schedule was removed");
    }

    // vest_other_unlocked: settling another account removes a spent schedule.
    for l in 0..10u8 {
        let mut ledger = Ledger::new(2, 100, 10);
        let other: usize = 1;
        ledger.make_free_balance_be(other, u64::MAX);
        add_locks(&mut ledger, other, l);
        add_vesting_schedule(&mut ledger, other).unwrap();
        ledger.set_block_number(20);
        assert_eq!(ledger.vesting_balance(other), Some(0), "Vesting schedule still active");
        let caller: usize = 0;
        ledger.vest_other(Origin::Signed(caller), other).unwrap();
        assert_eq!(ledger.vesting_balance(other), None, "Vesting schedule was not removed");
    }

    // vested_transfer: the transfer lands and the lock is created. These
    // two scenarios run under the standard configuration, so the amount is
    // the configured minimum of 512.
    for l in 0..10u8 {
        let mut ledger = Test::build(2);
        let caller: usize = 0;
        let target: usize = 1;
        ledger.make_free_balance_be(caller, u64::MAX);
        add_locks(&mut ledger, target, l);
        let transfer_amount = Test::min_vested_transfer();
        let vesting_schedule =
            VestingInfo { locked: transfer_amount, per_block: 10, starting_block: 1 };
        ledger.vested_transfer(Origin::Signed(caller), target, vesting_schedule).unwrap();
        assert_eq!(transfer_amount, ledger.free_balance(target), "Transfer didn't happen");
        assert_eq!(ledger.vesting_balance(target), Some(transfer_amount), "Lock not created");
    }

    // force_vested_transfer: root moves funds out of an arbitrary source.
    for l in 0..10u8 {
        let mut ledger = Test::build(2);
        let source: usize = 0;
        let target: usize = 1;
        ledger.make_free_balance_be(source, u64::MAX);
        add_locks(&mut ledger, target, l);
        let transfer_amount = Test::min_vested_transfer();
        let vesting_schedule =
            VestingInfo { locked: transfer_amount, per_block: 10, starting_block: 1 };
        ledger
            .force_vested_transfer(Origin::Root, source, target, vesting_schedule)
            .unwrap();
        assert_eq!(transfer_amount, ledger.free_balance(target), "Transfer didn't happen");
        assert_eq!(ledger.vesting_balance(target), Some(transfer_amount), "Lock not created");
    }
}

#[test]
fn vest_before_start_is_noop() {
    // Schedule {locked: 100, per_block: 10, starting_block: 1} at block 0:
    // everything is still locked and vesting changes nothing.
    let mut ledger = Ledger::new(1, 100, 10);
    ledger.make_free_balance_be(0, 1000);
    add_vesting_schedule(&mut ledger, 0).unwrap();
    ledger.set_block_number(0);
    assert_eq!(ledger.vesting_balance(0), Some(100));
    assert!(ledger.vest(Origin::Signed(0)).is_ok());
    assert_eq!(ledger.vesting_balance(0), Some(100));
    assert_eq!(ledger.vesting_lock(0), Some(100));
    assert_eq!(
        ledger.schedule(0),
        Some(VestingInfo { locked: 100, per_block: 10, starting_block: 1 })
    );
}

#[test]
fn vest_after_end_removes_schedule_and_lock() {
    // Same schedule at block 20: elapsed 19, unlocked 190, saturated to the
    // full 100, so the computed balance is zero and vesting removes both the
    // schedule and the lock entry.
    let mut ledger = Ledger::new(1, 100, 10);
    ledger.make_free_balance_be(0, 1000);
    add_vesting_schedule(&mut ledger, 0).unwrap();
    ledger.set_block_number(20);
    assert_eq!(ledger.vesting_balance(0), Some(0));
    assert!(ledger.vest(Origin::Signed(0)).is_ok());
    assert_eq!(ledger.vesting_balance(0), None);
    assert_eq!(ledger.vesting_lock(0), None);
    assert_eq!(ledger.schedule(0), None);
}

#[test]
fn vest_partway_updates_lock_amount() {
    // At block 5 four blocks have elapsed, so 40 of 100 have unlocked.
    let mut ledger = Ledger::new(1, 100, 10);
    add_vesting_schedule(&mut ledger, 0).unwrap();
    ledger.set_block_number(5);
    assert_eq!(ledger.vesting_balance(0), Some(60));
    // The lock entry still holds the stale amount until settled.
    assert_eq!(ledger.vesting_lock(0), Some(100));
    ledger.vest(Origin::Signed(0)).unwrap();
    assert_eq!(ledger.vesting_lock(0), Some(60));
    assert_eq!(ledger.vesting_balance(0), Some(60));
}

#[test]
fn removed_lock_means_no_vesting_balance() {
    // Settling either keeps both the lock entry and the balance, or removes
    // both: the entry is gone exactly when vesting_balance reports None.
    let mut ledger = Ledger::new(1, 100, 10);
    add_vesting_schedule(&mut ledger, 0).unwrap();
    ledger.set_block_number(7);
    ledger.vest(Origin::Signed(0)).unwrap();
    assert_eq!(ledger.vesting_lock(0).is_none(), ledger.vesting_balance(0).is_none());
    ledger.set_block_number(11);
    ledger.vest(Origin::Signed(0)).unwrap();
    assert!(ledger.vesting_lock(0).is_none());
    assert!(ledger.vesting_balance(0).is_none());
}

#[test]
fn vested_transfer_below_minimum_fails_amount_low() {
    // Under the standard configuration the minimum vested transfer is 512:
    // a schedule locking only 100 is rejected and nothing moves.
    let mut ledger = Test::build(2);
    ledger.make_free_balance_be(0, 10_000);
    ledger.make_free_balance_be(1, 7);
    let schedule = VestingInfo { locked: 100, per_block: 10, starting_block: 1 };
    let r = ledger.vested_transfer(Origin::Signed(0), 1, schedule);
    assert_eq!(r, Err(Error::AmountLow));
    assert_eq!(ledger.free_balance(0), 10_000);
    assert_eq!(ledger.free_balance(1), 7);
    assert_eq!(ledger.schedule(1), None);
    assert_eq!(ledger.vesting_lock(1), None);
}

#[test]
fn force_vested_transfer_needs_root() {
    // A signed caller may not move funds out of an arbitrary source.
    let mut ledger = Test::build(3);
    ledger.make_free_balance_be(0, 10_000);
    let schedule = VestingInfo { locked: 512, per_block: 10, starting_block: 1 };
    let r = ledger.force_vested_transfer(Origin::Signed(2), 0, 1, schedule);
    assert_eq!(r, Err(Error::BadOrigin));
    assert_eq!(ledger.free_balance(0), 10_000);
    assert_eq!(ledger.free_balance(1), 0);
    assert_eq!(ledger.schedule(1), None);
    assert_eq!(ledger.vesting_lock(1), None);
}

#[test]
fn vested_transfer_moves_funds_and_locks_them() {
    let mut ledger = Test::build(2);
    ledger.make_free_balance_be(0, 1000);
    let schedule = VestingInfo { locked: 512, per_block: 64, starting_block: 4 };
    ledger.vested_transfer(Origin::Signed(0), 1, schedule).unwrap();
    assert_eq!(ledger.free_balance(0), 488);
    assert_eq!(ledger.free_balance(1), 512);
    assert_eq!(ledger.vesting_balance(1), Some(512));
    assert_eq!(ledger.vesting_lock(1), Some(512));
    assert_eq!(ledger.schedule(1), Some(schedule));
}

#[test]
fn vested_transfer_insufficient_balance() {
    let mut ledger = Test::build(2);
    ledger.make_free_balance_be(0, 511);
    let schedule = VestingInfo { locked: 512, per_block: 64, starting_block: 4 };
    let r = ledger.vested_transfer(Origin::Signed(0), 1, schedule);
    assert_eq!(r, Err(Error::InsufficientBalance));
    assert_eq!(ledger.free_balance(0), 511);
    assert_eq!(ledger.free_balance(1), 0);
    assert_eq!(ledger.schedule(1), None);
}

#[test]
fn vested_transfer_zero_period_rejected() {
    let mut ledger = Test::build(2);
    ledger.make_free_balance_be(0, 1000);
    let schedule = VestingInfo { locked: 512, per_block: 0, starting_block: 4 };
    let r = ledger.vested_transfer(Origin::Signed(0), 1, schedule);
    assert_eq!(r, Err(Error::ZeroVestingPeriod));
    assert_eq!(ledger.free_balance(0), 1000);
    assert_eq!(ledger.free_balance(1), 0);
}

#[test]
fn vested_transfer_unsigned_rejected() {
    let mut ledger = Test::build(2);
    ledger.make_free_balance_be(0, 1000);
    let schedule = VestingInfo { locked: 512, per_block: 64, starting_block: 4 };
    let r = ledger.vested_transfer(Origin::Root, 1, schedule);
    assert_eq!(r, Err(Error::BadOrigin));
    assert_eq!(ledger.free_balance(0), 1000);
}

#[test]
fn vest_without_schedule_not_vesting() {
    let mut ledger = Test::build(2);
    assert_eq!(ledger.vest(Origin::Signed(0)), Err(Error::NotVesting));
    assert_eq!(ledger.vest_other(Origin::Signed(0), 1), Err(Error::NotVesting));
}

#[test]
fn vest_unsigned_bad_origin() {
    let mut ledger = Test::build(1);
    ledger.add_vesting_schedule(0, 512, 10, 1).unwrap();
    assert_eq!(ledger.vest(Origin::Root), Err(Error::BadOrigin));
    assert_eq!(ledger.vest_other(Origin::Root, 0), Err(Error::BadOrigin));
    assert_eq!(ledger.vesting_balance(0), Some(512));
}

#[test]
fn add_vesting_schedule_merges_existing() {
    // First schedule: 100 at 10 per block from block 1; second: 50 at 5
    // per block from block 3. Settled to block 3 the first has 80 left, so
    // the merged schedule locks 130 at 15 per block from block 3.
    let mut ledger = Ledger::new(1, 1, 10);
    ledger.add_vesting_schedule(0, 100, 10, 1).unwrap();
    ledger.add_vesting_schedule(0, 50, 5, 3).unwrap();
    assert_eq!(
        ledger.schedule(0),
        Some(VestingInfo { locked: 130, per_block: 15, starting_block: 3 })
    );
    assert_eq!(ledger.vesting_balance(0), Some(130));
    assert_eq!(ledger.vesting_lock(0), Some(130));
}

#[test]
fn merge_order_does_not_matter() {
    let mut first = Ledger::new(1, 1, 10);
    first.add_vesting_schedule(0, 100, 10, 1).unwrap();
    first.add_vesting_schedule(0, 50, 5, 3).unwrap();
    let mut second = Ledger::new(1, 1, 10);
    second.add_vesting_schedule(0, 50, 5, 3).unwrap();
    second.add_vesting_schedule(0, 100, 10, 1).unwrap();
    assert_eq!(first.schedule(0), second.schedule(0));
    for now in [0u64, 3, 5, 9, 12, 40] {
        first.set_block_number(now);
        second.set_block_number(now);
        assert_eq!(first.vesting_balance(0), second.vesting_balance(0));
    }
}

#[test]
fn unrelated_locks_survive_settling() {
    let mut ledger = Ledger::new(1, 100, 10);
    add_locks(&mut ledger, 0, 3);
    assert_eq!(ledger.lock_count(0), 3);
    add_vesting_schedule(&mut ledger, 0).unwrap();
    assert_eq!(ledger.lock_count(0), 4);
    ledger.set_block_number(20);
    ledger.vest(Origin::Signed(0)).unwrap();
    // Only the vesting entry is gone; the three unrelated locks remain.
    assert_eq!(ledger.lock_count(0), 3);
    assert_eq!(ledger.vesting_lock(0), None);
}

#[test]
fn standard_configuration_values() {
    assert_eq!(Test::min_vested_transfer(), 512);
    assert_eq!(Test::max_locks(), 10);
    let ledger = Test::build(4);
    assert_eq!(ledger.free_balance(3), 0);
    assert_eq!(ledger.schedule(2), None);
}
