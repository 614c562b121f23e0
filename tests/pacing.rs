use faceit_core::rate_limit::{interval_ms, rate_limit, MissedTickBehavior, PollNext, RateError};

fn ready<T: PartialEq + std::fmt::Debug>(p: PollNext<T>, want: Option<T>) {
    match p {
        PollNext::Ready(got) => assert_eq!(got, want),
        PollNext::Pending(at) => panic!("pending until {}", at),
    }
}

fn pending<T>(p: PollNext<T>, until: u64) {
    match p {
        PollNext::Pending(at) => assert_eq!(at, until),
        PollNext::Ready(_) => panic!("ready"),
    }
}

#[test]
fn interval_is_floor_of_thousand_over_rate() {
    assert_eq!(interval_ms(1), Ok(1000));
    assert_eq!(interval_ms(3), Ok(333));
    assert_eq!(interval_ms(7), Ok(142));
    assert_eq!(interval_ms(1000), Ok(1));
    assert_eq!(interval_ms(1001), Err(RateError::IntervalTooShort));
    assert_eq!(interval_ms(0), Err(RateError::ZeroRate));
}

#[test]
fn rate_limit_rejects_bad_rates() {
    assert!(matches!(rate_limit(vec![1], 5000), Err(RateError::IntervalTooShort)));
    assert!(matches!(rate_limit(vec![1], 0), Err(RateError::ZeroRate)));
}

#[test]
fn delay_policy_never_bursts_after_stall() {
    let mut it = rate_limit(vec![1, 2, 3], 10).unwrap();
    assert_eq!(it.interval_ms(), 100);
    assert_eq!(it.size_hint(), (3, Some(3)));
    ready(it.poll_next(0), Some(1));
    pending(it.poll_next(50), 100);
    ready(it.poll_next(100), Some(2));
    // The consumer stalls for many intervals: one item, then a full interval.
    ready(it.poll_next(1000), Some(3));
    pending(it.poll_next(1001), 1100);
    pending(it.poll_next(1099), 1100);
    ready(it.poll_next(1100), None);
    ready(it.poll_next(5000), None);
    assert_eq!(it.size_hint(), (0, Some(0)));
}

#[test]
fn burst_policy_catches_up() {
    let mut it = rate_limit(vec![1, 2, 3, 4], 10).unwrap();
    it.set_missed_tick_behavior(MissedTickBehavior::Burst);
    ready(it.poll_next(0), Some(1));
    ready(it.poll_next(450), Some(2));
    ready(it.poll_next(451), Some(3));
    ready(it.poll_next(452), Some(4));
}

#[test]
fn skip_policy_keeps_schedule() {
    let mut it = rate_limit(vec![1, 2, 3], 10).unwrap();
    it.set_missed_tick_behavior(MissedTickBehavior::Skip);
    ready(it.poll_next(0), Some(1));
    ready(it.poll_next(450), Some(2));
    pending(it.poll_next(499), 500);
    ready(it.poll_next(500), Some(3));
}

#[test]
fn empty_source_ends_at_first_tick() {
    let mut it = rate_limit(Vec::<u8>::new(), 1).unwrap();
    ready(it.poll_next(7), None);
    ready(it.poll_next(8), None);
}
