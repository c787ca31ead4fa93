use std::cell::Cell;
use std::rc::Rc;

use microbench::time::Nanoseconds;
use microbench::utility::GeometricSequence;
use microbench::{measure, measure_drop, measure_setup, Bytes, InputRoutine, Options, Routine};

struct CountedRoutine {
    runs: Rc<Cell<u64>>,
}

impl Routine<u64> for CountedRoutine {
    fn run(&mut self) -> u64 {
        self.runs.set(self.runs.get() + 1);
        self.runs.get()
    }
}

struct BoxedRoutine;

impl Routine<Box<u64>> for BoxedRoutine {
    fn run(&mut self) -> Box<u64> {
        Box::new(7)
    }
}

struct UnitRoutine;

impl Routine<()> for UnitRoutine {
    fn run(&mut self) {}
}

struct PairSetup;

impl Routine<(u64, u64)> for PairSetup {
    fn run(&mut self) -> (u64, u64) {
        (1, 2)
    }
}

struct PairConsumer;

impl InputRoutine<(u64, u64), u64> for PairConsumer {
    fn run(&mut self, input: (u64, u64)) -> u64 {
        input.0.wrapping_add(input.1)
    }
}

struct CountedSetup {
    prepared: Rc<Cell<u64>>,
}

impl Routine<u64> for CountedSetup {
    fn run(&mut self) -> u64 {
        self.prepared.set(self.prepared.get() + 1);
        self.prepared.get()
    }
}

struct IdentityConsumer;

impl InputRoutine<u64, u64> for IdentityConsumer {
    fn run(&mut self, input: u64) -> u64 {
        input
    }
}

fn quick(time_nanos: u64) -> Options {
    Options::default().time(Nanoseconds(time_nanos))
}

#[test]
fn collector_terminates_at_the_time_budget() {
    let started = std::time::Instant::now();
    let samples = measure(&quick(50_000_000), UnitRoutine);
    // The loop stopped shortly after the 50 ms budget instead of running
    // on indefinitely, and collected at least a few samples on the way.
    assert!(started.elapsed().as_secs() < 10);
    assert!(samples.len() >= 2);
}

#[test]
fn collector_iteration_counts_increase_from_one() {
    let samples = measure(&quick(20_000_000), UnitRoutine);
    assert!(!samples.is_empty());
    assert_eq!(samples[0].iterations, 1);
    for pair in samples.windows(2) {
        assert!(pair[0].iterations < pair[1].iterations);
    }
}

#[test]
fn collector_accepts_a_zero_time_budget() {
    let samples = measure(&quick(0), UnitRoutine);
    assert!(samples.is_empty());
}

#[test]
fn collector_follows_the_generator_schedule() {
    let factor: u64 = 0x2_0000_0000;
    let options = Options::default().factor(factor).time(Nanoseconds(50_000_000));
    let samples = measure(&options, UnitRoutine);
    let mut sequence = GeometricSequence::new(1, factor);
    assert!(!samples.is_empty());
    for s in &samples {
        assert_eq!(s.iterations, sequence.next().unwrap());
    }
}

#[test]
fn collector_runs_every_sampled_round_fully() {
    let runs = Rc::new(Cell::new(0));
    let samples = measure(&quick(20_000_000), CountedRoutine { runs: runs.clone() });
    let sampled: u64 = samples.iter().map(|s| s.iterations).sum();
    assert_eq!(runs.get(), sampled);
}

#[test]
fn drop_measurement_respects_memory_budget() {
    // A boxed result takes 8 bytes in the buffer, so no round past 8
    // iterations may proceed under a 64-byte budget.
    let options = quick(1_000_000_000).memory(Bytes(64));
    let samples = measure_drop(&options, BoxedRoutine);
    assert!(!samples.is_empty());
    for s in &samples {
        assert!(s.iterations * 8 <= 64);
    }
}

#[test]
fn drop_measurement_stops_on_an_exhausted_budget() {
    // Even the first round of one iteration does not fit in 7 bytes: the
    // loop ends at once rather than skipping to a smaller count.
    let options = quick(1_000_000_000).memory(Bytes(7));
    let samples = measure_drop(&options, BoxedRoutine);
    assert!(samples.is_empty());
}

#[test]
fn drop_measurement_counts_zero_sized_values_as_one_byte() {
    let options = quick(1_000_000_000).memory(Bytes(2));
    let samples = measure_drop(&options, UnitRoutine);
    for s in &samples {
        assert!(s.iterations <= 2);
    }
    assert_eq!(samples.len(), 2);
}

#[test]
fn setup_measurement_respects_memory_budget() {
    // A pair of two u64 takes 16 bytes per prepared input.
    let options = quick(1_000_000_000).memory(Bytes(64));
    let samples = measure_setup(&options, PairSetup, PairConsumer);
    assert!(!samples.is_empty());
    for s in &samples {
        assert!(s.iterations * 16 <= 64);
    }
}

#[test]
fn setup_measurement_prepares_every_input_outside_the_timed_region() {
    let prepared = Rc::new(Cell::new(0));
    let options = quick(20_000_000);
    let samples = measure_setup(
        &options,
        CountedSetup { prepared: prepared.clone() },
        IdentityConsumer,
    );
    let sampled: u64 = samples.iter().map(|s| s.iterations).sum();
    assert_eq!(prepared.get(), sampled);
}
