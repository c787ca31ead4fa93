use microbench::utility::{GeometricSequence, FACTOR_ONE, VALUE_LIMIT};
use microbench::DEFAULT_FACTOR;

#[test]
fn sequence_with_factor_two_doubles() {
    let mut sequence = GeometricSequence::new(1, 2 * FACTOR_ONE);
    let mut expected: u64 = 1;
    for _ in 0..20 {
        assert_eq!(sequence.next(), Some(expected));
        expected *= 2;
    }
}

#[test]
fn sequence_first_value_equals_start() {
    for start in [1u64, 2, 7, 1000, 123_456_789] {
        let mut sequence = GeometricSequence::new(start, DEFAULT_FACTOR);
        assert_eq!(sequence.next(), Some(start));
    }
}

#[test]
fn sequence_with_slow_factor_steps_through_small_integers() {
    // While one percent of the accumulator stays below one, de-duplication
    // advances the emitted value by exactly one per step.
    let mut sequence = GeometricSequence::new(1, DEFAULT_FACTOR);
    for expected in 1u64..=50 {
        assert_eq!(sequence.next(), Some(expected));
    }
}

#[test]
fn sequence_is_strictly_increasing_and_unique() {
    let mut sequence = GeometricSequence::new(1, DEFAULT_FACTOR);
    let mut previous: Option<u64> = None;
    for _ in 0..2000 {
        let value = sequence.next().unwrap();
        if let Some(previous) = previous {
            assert!(value > previous);
        }
        previous = Some(value);
    }
}

#[test]
fn sequence_reports_exhaustion_past_the_value_limit() {
    let mut sequence = GeometricSequence::new(VALUE_LIMIT, 2 * FACTOR_ONE);
    assert_eq!(sequence.next(), Some(VALUE_LIMIT));
    assert_eq!(sequence.next(), None);
    assert_eq!(sequence.next(), None);
}
