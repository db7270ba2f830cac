use ureq_transport::budget::attempt_budget;
use ureq_transport::time::{Duration, ExactDuration, NextTimeout, Timeout};

fn millis(total: ExactDuration, num_addrs: usize, index: usize) -> u128 {
    attempt_budget(total, num_addrs, index).as_nanos() / 1_000_000
}

#[test]
fn four_addresses_share_ten_seconds() {
    let total = ExactDuration::from_secs(10);
    assert_eq!(millis(total, 4, 0), 5333);
    assert_eq!(millis(total, 4, 1), 2666);
    assert_eq!(millis(total, 4, 2), 1333);
    assert_eq!(millis(total, 4, 3), 666);
}

#[test]
fn a_single_address_gets_the_full_budget() {
    assert_eq!(millis(ExactDuration::from_secs(10), 1, 0), 10_000);
    assert_eq!(millis(ExactDuration::new(3, 141_592_653), 1, 0), 3141);
}

#[test]
fn shares_are_whole_milliseconds_rounded_down() {
    let share = attempt_budget(ExactDuration::from_secs(1), 2, 0);
    assert_eq!(share.as_nanos(), 666_000_000);
    let share = attempt_budget(ExactDuration::from_millis(300), 2, 0);
    assert_eq!(share.as_nanos(), 200_000_000);
}

#[test]
fn no_share_is_below_ten_milliseconds() {
    assert_eq!(millis(ExactDuration::from_millis(15), 1, 0), 15);
    assert_eq!(millis(ExactDuration::from_millis(15), 2, 0), 10);
    assert_eq!(millis(ExactDuration::from_millis(15), 2, 1), 10);
    assert_eq!(millis(ExactDuration::from_secs(1), 16, 15), 10);
    assert_eq!(millis(ExactDuration::new(0, 1), 1, 0), 10);
}

#[test]
fn many_addresses_leave_half_of_the_budget_to_the_first() {
    assert_eq!(millis(ExactDuration::from_secs(10), 99, 0), 5000);
    assert_eq!(millis(ExactDuration::from_secs(10), 100, 1), 2500);
    assert_eq!(millis(ExactDuration::from_secs(10), 1000, 0), 5000);
    assert_eq!(millis(ExactDuration::from_secs(10), 1000, 999), 10);
}

#[test]
fn the_longest_budget_does_not_overflow() {
    let total = ExactDuration::new(u64::MAX, 999_999_999);
    assert_eq!(millis(total, 1, 0), u64::MAX as u128);
    assert_eq!(millis(total, 2, 0), u64::MAX as u128);
    assert_eq!(millis(total, 200, 50), (total.as_nanos() / 1_000_000) >> 51);
    assert_eq!(millis(total, 200, 98), 10);
    assert_eq!(millis(total, 64, 63), 1000);
}

#[test]
fn shares_fill_the_budget() {
    for num_addrs in 1..17usize {
        let total = ExactDuration::new(30, 123_456_789);
        let mut sum: u128 = 0;
        let mut next: u128 = 0;
        let mut index = num_addrs;
        while index > 0 {
            index -= 1;
            let share = millis(total, num_addrs, index);
            if share > 10 && next > 10 {
                assert!(2 * next <= share && share <= 2 * next + 1);
            }
            sum += share;
            next = share;
        }
        assert!(sum <= 30_123 + 10 * num_addrs as u128);
        assert!(sum + num_addrs as u128 > 30_123);
    }
}

#[test]
fn durations_keep_their_parts() {
    let duration = ExactDuration::new(7, 8);
    assert_eq!(duration.as_secs(), 7);
    assert_eq!(duration.subsec_nanos(), 8);
    assert_eq!(duration.as_nanos(), 7_000_000_008);
    assert!(!duration.is_zero());
    assert!(ExactDuration::new(0, 0).is_zero());
    let duration = ExactDuration::from_millis(1234);
    assert_eq!(duration.as_secs(), 1);
    assert_eq!(duration.subsec_nanos(), 234_000_000);
    assert!(duration.same(&ExactDuration::new(1, 234_000_000)));
    assert!(!duration.same(&ExactDuration::from_millis(1235)));
}

#[test]
fn a_duration_that_does_not_end_is_the_longest() {
    let second = Duration::Exact(ExactDuration::from_secs(1));
    let minute = Duration::Exact(ExactDuration::from_secs(60));
    assert!(minute.is_longer_than(&second));
    assert!(!second.is_longer_than(&minute));
    assert!(!second.is_longer_than(&second));
    assert!(Duration::NotHappening.is_longer_than(&minute));
    assert!(!minute.is_longer_than(&Duration::NotHappening));
    assert!(!Duration::NotHappening.is_longer_than(&Duration::NotHappening));
    assert!(Duration::NotHappening.is_not_happening());
    assert!(!second.is_not_happening());
}

#[test]
fn a_socket_timeout_is_never_zero() {
    let next = |after| NextTimeout { after, reason: Timeout::Global };
    assert!(next(Duration::NotHappening).not_zero().is_none());
    let zero = next(Duration::Exact(ExactDuration::from_secs(0))).not_zero().unwrap();
    assert_eq!(zero.as_nanos(), 1_000_000_000);
    let nano = next(Duration::Exact(ExactDuration::new(0, 1))).not_zero().unwrap();
    assert_eq!(nano.as_nanos(), 1);
}
