use token_launch::storage::VestingSchedule;
use token_launch::vesting::vested_amount;

#[test]
fn vesting_is_zero_at_start_and_full_at_maturity() {
    assert_eq!(vested_amount(100, 1000, 1000, 999), 0);
    assert_eq!(vested_amount(100, 1000, 1000, 1000), 0);
    assert_eq!(vested_amount(100, 1000, 1000, 2000), 100);
    assert_eq!(vested_amount(100, 1000, 1000, 5000), 100);
}

#[test]
fn vesting_is_linear_with_floor_division() {
    assert_eq!(vested_amount(100, 1000, 1000, 1500), 50);
    assert_eq!(vested_amount(100, 1000, 1000, 1001), 0);
    assert_eq!(vested_amount(100, 1000, 1000, 1015), 1);
    assert_eq!(vested_amount(7, 0, 3, 2), 4);
}

#[test]
fn vesting_samples_are_non_decreasing() {
    let mut last: i128 = 0;
    let mut t: u64 = 0;
    while t <= 3000 {
        let v = vested_amount(12345, 500, 2000, t);
        assert!(v >= last);
        assert!(v <= 12345);
        last = v;
        t += 10;
    }
    assert_eq!(last, 12345);
}

#[test]
fn zero_duration_unlocks_immediately() {
    assert_eq!(vested_amount(100, 1000, 0, 1000), 100);
    assert_eq!(vested_amount(100, 1000, 0, 999), 100);
}

#[test]
fn schedule_vested_at_matches_free_function() {
    let s = VestingSchedule {
        total_amount: 400,
        claimed_amount: 0,
        start_time: 100,
        cliff_duration: 10,
        total_duration: 200,
    };
    assert_eq!(s.vested_at(150), 100);
    assert_eq!(s.vested_at(150), vested_amount(400, 100, 200, 150));
    assert_eq!(s.vested_at(300), 400);
}
