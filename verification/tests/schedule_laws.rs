use vesting::schedule::VestingInfo;

#[test]
fn full_amount_locked_before_start() {
    let s = VestingInfo { locked: 100, per_block: 10, starting_block: 7 };
    for now in 0..7u64 {
        assert_eq!(s.locked_amount(now), 100);
    }
}

#[test]
fn locked_amount_is_non_increasing_and_hits_zero() {
    // End block is starting_block + ceil(locked / per_block) = 1 + 10 = 11.
    let s = VestingInfo { locked: 100, per_block: 10, starting_block: 1 };
    let mut previous = s.locked_amount(0);
    for now in 1..40u64 {
        let here = s.locked_amount(now);
        assert!(here <= previous);
        previous = here;
    }
    assert_eq!(s.locked_amount(10), 10);
    assert_eq!(s.locked_amount(11), 0);
    assert_eq!(s.locked_amount(12), 0);
    assert_eq!(s.locked_amount(u64::MAX), 0);
}

#[test]
fn locked_amount_exact_values() {
    let s = VestingInfo { locked: 100, per_block: 10, starting_block: 1 };
    assert_eq!(s.locked_amount(0), 100);
    assert_eq!(s.locked_amount(1), 100);
    assert_eq!(s.locked_amount(2), 90);
    assert_eq!(s.locked_amount(5), 60);
    // Elapsed 19 blocks would unlock 190: saturated to the full 100.
    assert_eq!(s.locked_amount(20), 0);
    // An uneven rate rounds the end block up.
    let t = VestingInfo { locked: 10, per_block: 3, starting_block: 0 };
    assert_eq!(t.locked_amount(3), 1);
    assert_eq!(t.locked_amount(4), 0);
}

#[test]
fn locked_amount_saturates_on_huge_elapsed() {
    let s = VestingInfo { locked: u64::MAX, per_block: u64::MAX, starting_block: 0 };
    assert_eq!(s.locked_amount(0), u64::MAX);
    assert_eq!(s.locked_amount(1), 0);
    let t = VestingInfo { locked: u64::MAX, per_block: 2, starting_block: 0 };
    assert_eq!(t.locked_amount(u64::MAX), 0);
}

#[test]
fn merge_is_commutative() {
    let a = VestingInfo { locked: 100, per_block: 10, starting_block: 1 };
    let b = VestingInfo { locked: 50, per_block: 5, starting_block: 3 };
    let ab = a.merge(&b);
    let ba = b.merge(&a);
    assert_eq!(ab, ba);
    for now in [0u64, 1, 3, 7, 11, 100] {
        assert_eq!(ab.locked_amount(now), ba.locked_amount(now));
    }
}

#[test]
fn merge_settles_to_the_later_start() {
    // At block 3 the first schedule has unlocked 20 of its 100, so the
    // merged schedule locks 80 + 50 at the combined rate of 15.
    let a = VestingInfo { locked: 100, per_block: 10, starting_block: 1 };
    let b = VestingInfo { locked: 50, per_block: 5, starting_block: 3 };
    let m = a.merge(&b);
    assert_eq!(m, VestingInfo { locked: 130, per_block: 15, starting_block: 3 });
    // A schedule already spent by the later start contributes nothing.
    let c = VestingInfo { locked: 30, per_block: 10, starting_block: 0 };
    let d = VestingInfo { locked: 40, per_block: 1, starting_block: 9 };
    assert_eq!(c.merge(&d), VestingInfo { locked: 40, per_block: 11, starting_block: 9 });
}
