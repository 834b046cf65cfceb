use slot_distro::{check_slot_eligibility, count_eligible_slots};

#[test]
fn slot_five_window_edges() {
    let day: i64 = 86_400 * 19_000;
    assert!(check_slot_eligibility(5, day + 18_000));
    assert!(!check_slot_eligibility(5, day + 17_999));
    assert!(check_slot_eligibility(5, day + 21_599));
    assert!(!check_slot_eligibility(5, day + 21_600));
}

#[test]
fn first_and_last_slot_bounds() {
    assert!(check_slot_eligibility(0, 0));
    assert!(check_slot_eligibility(0, 3_599));
    assert!(!check_slot_eligibility(0, 3_600));
    assert!(!check_slot_eligibility(23, 82_799));
    assert!(check_slot_eligibility(23, 82_800));
    assert!(check_slot_eligibility(23, 86_399));
    assert!(!check_slot_eligibility(23, 86_400));
}

#[test]
fn negative_timestamp_uses_time_of_day() {
    // One second before the epoch is the last second of a day.
    assert!(check_slot_eligibility(23, -1));
    assert!(!check_slot_eligibility(0, -1));
    assert!(check_slot_eligibility(0, -86_400));
}

#[test]
fn slot_out_of_range_never_eligible() {
    for ts in [0i64, 50_000, 86_399, 1_700_000_000] {
        assert!(!check_slot_eligibility(24, ts));
        assert!(!check_slot_eligibility(u32::MAX, ts));
    }
}

#[test]
fn exactly_one_slot_each_timestamp() {
    for ts in [0i64, 1, 3_599, 3_600, 43_200, 86_399, 86_400, -1, -3_601, 1_700_000_000, i64::MIN, i64::MAX] {
        assert_eq!(count_eligible_slots(ts), 1);
        let eligible = (0u32..24).filter(|&s| check_slot_eligibility(s, ts)).count();
        assert_eq!(eligible, 1);
    }
}
