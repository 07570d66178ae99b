use loupe::time::{Instant, Span, StepCount, MAX_NANOS, NANOS_PER_SEC};

#[test]
fn span_carries_nanoseconds_into_seconds() {
    let span = Span::new(1, 2_500_000_000).unwrap();
    assert_eq!(span.as_secs(), 3);
    assert_eq!(span.subsec_nanos(), 500_000_000);
    assert_eq!(span.as_nanos(), 3_500_000_000);
}

#[test]
fn span_that_does_not_fit_is_none() {
    assert_eq!(Span::new(u64::MAX, NANOS_PER_SEC), None);
    assert!(Span::new(u64::MAX, NANOS_PER_SEC - 1).is_some());
    assert_eq!(Span::from_nanos(MAX_NANOS + 1), None);
    assert_eq!(Span::from_nanos(MAX_NANOS).unwrap().as_nanos(), MAX_NANOS);
}

#[test]
fn span_from_millis_and_nanos_agree() {
    assert_eq!(Span::from_millis(650), Span::from_nanos(650_000_000).unwrap());
    assert_eq!(Span::from_millis(650).as_nanos(), 650_000_000);
    assert_eq!(Span::from_millis(u64::MAX).as_nanos(), u64::MAX as u128 * 1_000_000);
    assert_eq!(Span::zero().as_nanos(), 0);
}

#[test]
fn largest_span_is_max_nanos() {
    assert_eq!(MAX_NANOS, u64::MAX as u128 * 1_000_000_000 + 999_999_999);
}

#[test]
fn duration_since_is_zero_for_a_later_instant() {
    let early = Instant::from_origin(Span::from_millis(10));
    let late = Instant::from_origin(Span::from_millis(25));
    assert_eq!(late.duration_since(early), Span::from_millis(15));
    assert_eq!(early.duration_since(late), Span::zero());
    assert_eq!(early.duration_since(early), Span::zero());
}

#[test]
fn instant_addition_is_checked() {
    let start = Instant::from_origin(Span::from_millis(10));
    let later = start.checked_add(Span::from_millis(5)).unwrap();
    assert_eq!(later.since_origin(), Span::from_millis(15));
    let last = Instant::from_origin(Span::from_nanos(MAX_NANOS).unwrap());
    assert_eq!(last.checked_add(Span::from_nanos(1).unwrap()), None);
    assert_eq!(last.checked_add(Span::zero()), Some(last));
}

#[test]
fn step_count_is_never_zero() {
    assert_eq!(StepCount::new(0), None);
    assert_eq!(StepCount::new(3).unwrap().get(), 3);
    assert_eq!(StepCount::new(u32::MAX).unwrap().get(), u32::MAX);
}
