use fopener::stable::{StabilityChecker, StabilityStep};

fn checker(required: u32) -> StabilityChecker {
    StabilityChecker { check_interval_ms: 300, required_stable_count: required, timeout_sec: 30 }
}

/// Feeds samples taken before the deadline; gives the index of the sample
/// at which the file was found stable.
fn stable_at(required: u32, sizes: &[Option<u64>]) -> Option<usize> {
    let c = checker(required);
    let mut p = c.start();
    for (i, s) in sizes.iter().enumerate() {
        match c.observe(&mut p, 0, *s) {
            StabilityStep::Stable => return Some(i),
            StabilityStep::Continue => {}
            StabilityStep::TimedOut => panic!("no deadline here"),
        }
    }
    None
}

#[test]
fn stable_after_required_equal_samples() {
    assert_eq!(stable_at(3, &[Some(10), Some(10), Some(10), Some(10)]), Some(3));
    assert_eq!(stable_at(3, &[Some(10), Some(10), Some(10)]), None);
}

#[test]
fn growth_resets_the_count() {
    assert_eq!(
        stable_at(2, &[Some(1), Some(1), Some(2), Some(2), Some(2)]),
        Some(4)
    );
}

#[test]
fn unreadable_size_never_counts() {
    assert_eq!(stable_at(1, &[None, None, None, None]), None);
    assert_eq!(stable_at(1, &[Some(5), None, Some(5), Some(5)]), Some(3));
}

#[test]
fn zero_required_still_needs_two_equal_samples() {
    assert_eq!(stable_at(0, &[Some(7), Some(7)]), Some(1));
    assert_eq!(stable_at(0, &[Some(7)]), None);
}

#[test]
fn deadline_passed_times_out() {
    let c = checker(3);
    let mut p = c.start();
    assert_eq!(c.observe(&mut p, 29_999, Some(4)), StabilityStep::Continue);
    let before = p;
    assert_eq!(c.observe(&mut p, 30_000, Some(4)), StabilityStep::TimedOut);
    assert_eq!(p.stable_count, before.stable_count);
    assert_eq!(p.last_size, before.last_size);
}

#[test]
fn deadline_in_milliseconds() {
    let c = checker(1);
    assert!(c.before_deadline(29_999));
    assert!(!c.before_deadline(30_000));
    let zero = StabilityChecker { check_interval_ms: 1, required_stable_count: 1, timeout_sec: 0 };
    assert!(!zero.before_deadline(0));
    let forever = StabilityChecker { check_interval_ms: 1, required_stable_count: 1, timeout_sec: u64::MAX };
    assert!(forever.before_deadline(u64::MAX));
}
