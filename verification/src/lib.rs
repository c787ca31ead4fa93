//! A micro-benchmarking library.
//!
//! The library estimates the execution time of a routine by running it with a
//! geometrically growing iteration count, timing each batch, and handing the
//! collected `(iterations, elapsed)` samples to a linear-regression estimator.

use vstd::prelude::*;

pub mod time;
pub mod utility;

use crate::time::{Nanoseconds, Stopwatch};
use crate::utility::{
    black_box, nth_accumulator, nth_emission, settled, GeometricSequence, FACTOR_LIMIT,
    FACTOR_ONE,
};

verus! {

/// The maximum number of benchmark sample iterations.
pub const ITERATIONS: u64 = 1_000_000_000_000_000;

/// The default growth factor for sample iteration counts: 1.01, in fixed
/// point with 32 fractional bits.
pub const DEFAULT_FACTOR: u64 = 4_337_916_969;

/// A number of bytes.
#[derive(Copy, Clone, Debug, PartialEq, Eq, PartialOrd, Ord)]
pub struct Bytes(pub u64);

impl Bytes {
    /// Returns the number of bytes in the supplied number of kibibytes (2^10 bytes).
    pub fn kibibytes(kibibytes: u64) -> (r: Self)
        requires
            kibibytes * 1024 <= u64::MAX,
        ensures
            r.0 == kibibytes * 1024,
    {
        Bytes(kibibytes * 1024)
    }

    /// Returns the number of bytes in the supplied number of mebibytes (2^20 bytes).
    pub fn mebibytes(mebibytes: u64) -> (r: Self)
        requires
            mebibytes * 1024 * 1024 <= u64::MAX,
        ensures
            r.0 == mebibytes * 1024 * 1024,
    {
        Bytes(mebibytes * 1024 * 1024)
    }

    /// Returns the number of bytes in the supplied number of gibibytes (2^30 bytes).
    pub fn gibibytes(gibibytes: u64) -> (r: Self)
        requires
            gibibytes * 1024 * 1024 * 1024 <= u64::MAX,
        ensures
            r.0 == gibibytes * 1024 * 1024 * 1024,
    {
        Bytes(gibibytes * 1024 * 1024 * 1024)
    }
}

/// A set of benchmarking options.
#[derive(Copy, Clone, Debug)]
pub struct Options {
    /// The geometric growth factor for sample iteration counts, in fixed
    /// point with 32 fractional bits (`utility::FACTOR_ONE` stands for 1.0).
    pub factor: u64,
    /// The maximum amount of memory benchmarks will allocate.
    pub memory: Bytes,
    /// The maximum amount of time benchmarks will run for.
    pub time: Nanoseconds<u64>,
}

impl Options {
    /// The options are well formed: the growth factor lies strictly above
    /// 1.0 and within the accepted range.
    pub open spec fn wf(self) -> bool {
        FACTOR_ONE < self.factor <= FACTOR_LIMIT
    }

    /// Sets the geometric growth factor for benchmark sample iterations, in
    /// fixed point with 32 fractional bits.
    ///
    /// **Default:** `DEFAULT_FACTOR` (1.01)
    pub fn factor(self, factor: u64) -> (r: Self)
        requires
            FACTOR_ONE < factor <= FACTOR_LIMIT,
        ensures
            r == (Options { factor, ..self }),
            r.wf(),
    {
        Options { factor, ..self }
    }

    /// Sets the maximum amount of memory benchmarks will allocate.
    ///
    /// **Default:** `Bytes::mebibytes(512)`
    pub fn memory(self, memory: Bytes) -> (r: Self)
        ensures
            r == (Options { memory, ..self }),
    {
        Options { memory, ..self }
    }

    /// Sets the maximum amount of time benchmarks will run for.
    ///
    /// **Default:** 5 seconds
    pub fn time(self, time: Nanoseconds<u64>) -> (r: Self)
        ensures
            r == (Options { time, ..self }),
    {
        Options { time, ..self }
    }
}

impl Default for Options {
    /// Returns the default options: a growth factor of 1.01, a memory budget
    /// of 512 mebibytes and a time budget of 5 seconds.
    fn default() -> (r: Options)
        ensures
            r.factor == DEFAULT_FACTOR,
            r.memory.0 == 0x2000_0000,
            r.time.0 == 5_000_000_000,
            r.wf(),
    {
        let factor = DEFAULT_FACTOR;
        let memory = Bytes::mebibytes(512);
        let time = Nanoseconds(5_000_000_000);
        Options { factor, memory, time }
    }
}

/// A sample of the execution time of a function.
#[derive(Copy, Clone, Debug)]
pub struct Sample {
    /// The number of times the function was executed.
    pub iterations: u64,
    /// The number of nanoseconds that elapsed while executing the function.
    pub elapsed: Nanoseconds<u64>,
}

/// The iteration counts of the samples are strictly increasing: no count
/// appears twice, and later samples ran more iterations.
pub open spec fn iterations_strictly_increase(samples: Seq<Sample>) -> bool {
    forall|j: int, k: int|
        0 <= j < k < samples.len() ==> samples[j].iterations < samples[k].iterations
}

/// The samples are a prefix of the geometric schedule: the `k`-th sample ran
/// exactly the `k`-th emission of a sequence seeded at 1 with `factor` —
/// rounds are neither skipped nor reordered.
pub open spec fn samples_follow_schedule(samples: Seq<Sample>, factor: u64) -> bool {
    forall|k: int|
        0 <= k < samples.len() ==> samples[k].iterations as int == nth_emission(
            1,
            factor as int,
            k as nat,
        )
}

/// Law: strictly increasing iteration counts are never repeated — any two
/// distinct samples of such a collection ran a different number of
/// iterations.
pub proof fn lemma_iteration_counts_unique(samples: Seq<Sample>)
    requires
        iterations_strictly_increase(samples),
    ensures
        forall|j: int, k: int|
            0 <= j < samples.len() && 0 <= k < samples.len() && j != k
                ==> samples[j].iterations != samples[k].iterations,
{
    assert forall|j: int, k: int|
        0 <= j < samples.len() && 0 <= k < samples.len() && j != k
            implies samples[j].iterations != samples[k].iterations by {
        if j < k {
            assert(samples[j].iterations < samples[k].iterations);
        } else {
            assert(samples[k].iterations < samples[j].iterations);
        }
    }
}

/// A function that prevents the optimizer from eliminating the supplied value.
pub fn retain<T>(value: T) -> (r: T)
    ensures
        r == value,
{
    black_box(value)
}

/// Says whether a set of samples supports a numeric estimate: an estimate is
/// reported only from at least two samples whose fitted slope did not come
/// out negative.
pub fn enough_samples(samples: &Vec<Sample>, slope_negative: bool) -> (r: bool)
    ensures
        r == (samples@.len() >= 2 && !slope_negative),
{
    samples.len() >= 2 && !slope_negative
}

/// Says whether holding `iterations` values of `size` bytes each at once
/// would overrun the memory budget.
pub fn memory_exceeded(iterations: u64, size: u64, memory: Bytes) -> (r: bool)
    ensures
        r == (iterations * size > memory.0),
{
    match iterations.checked_mul(size) {
        None => true,
        Some(total) => total > memory.0,
    }
}

/// The number of bytes a value of `T` occupies in a buffer, counting at
/// least one byte even for zero-sized values, as the memory budget does.
pub open spec fn spec_element_size<T>() -> int {
    if vstd::layout::size_of::<T>() == 0 {
        1
    } else {
        vstd::layout::size_of::<T>() as int
    }
}

fn element_size<T>() -> (r: u64)
    ensures
        r == spec_element_size::<T>(),
{
    let size = core::mem::size_of::<T>();
    if size == 0 {
        1
    } else {
        size as u64
    }
}

/// The code segment a benchmark measures: each call runs the segment once
/// and returns its result.
pub trait Routine<T> {
    /// Runs the code segment once.
    fn run(&mut self) -> T;
}

/// A code segment that consumes a prepared input on each run.
pub trait InputRoutine<I, T> {
    /// Runs the code segment once on the supplied input.
    fn run(&mut self, input: I) -> T;
}

/// Measures the execution time of the supplied routine.
///
/// Each round runs the routine `iterations` times in a row, discarding each
/// result through the anti-optimization barrier, and records the elapsed
/// time as one sample. Iteration counts are pulled from a geometric sequence
/// seeded at 1 with `options.factor`; the loop stops once a count passes
/// `ITERATIONS` or the cumulative elapsed time reaches `options.time`.
pub fn measure<T, R: Routine<T>>(options: &Options, f: R) -> (samples: Vec<Sample>)
    requires
        options.wf(),
    ensures
        iterations_strictly_increase(samples@),
        samples_follow_schedule(samples@, options.factor),
        forall|k: int| 0 <= k < samples@.len() ==> 1 <= #[trigger] samples@[k].iterations <= ITERATIONS,
        samples@.len() > 0 ==> samples@[0].iterations == 1,
{
    let mut f = f;
    let stopwatch = Stopwatch::new();
    let mut sequence = GeometricSequence::new(1, options.factor);
    let mut samples: Vec<Sample> = Vec::new();
    loop
        invariant_except_break
            samples@.len() > 0 ==> samples@[samples@.len() - 1].iterations < sequence.value(),
            samples@.len() == 0 ==> sequence.value() == 1,
            sequence.current as int == nth_accumulator(
                1,
                options.factor as int,
                samples@.len() as nat,
            ),
        invariant
            sequence.wf(),
            sequence.factor == options.factor,
            iterations_strictly_increase(samples@),
            samples_follow_schedule(samples@, options.factor),
            forall|k: int| 0 <= k < samples@.len() ==> 1 <= #[trigger] samples@[k].iterations <= ITERATIONS,
            samples@.len() > 0 ==> samples@[0].iterations == 1,
        ensures
            iterations_strictly_increase(samples@),
            samples_follow_schedule(samples@, options.factor),
            forall|k: int| 0 <= k < samples@.len() ==> 1 <= #[trigger] samples@[k].iterations <= ITERATIONS,
            samples@.len() > 0 ==> samples@[0].iterations == 1,
        decreases (if sequence.value() <= ITERATIONS as int + 1 {
            ITERATIONS as int + 2 - sequence.value()
        } else {
            0int
        }),
    {
        let i = match sequence.next() {
            Some(i) => i,
            None => { break; },
        };
        if i > ITERATIONS {
            break;
        }
        if stopwatch.elapsed().0 >= options.time.0 {
            break;
        }
        let round = Stopwatch::new();
        let mut j: u64 = 0;
        while j < i
            invariant
                j <= i,
            decreases i - j,
        {
            retain(f.run());
            j = j + 1;
        }
        let elapsed = round.elapsed();
        samples.push(Sample { iterations: i, elapsed });
        proof {
            assert(nth_accumulator(1, options.factor as int, samples@.len() as nat) == settled(
                nth_accumulator(1, options.factor as int, (samples@.len() - 1) as nat),
                options.factor as int,
            ));
        }
    }
    samples
}

/// Measures the execution time of the supplied routine ignoring drop time.
///
/// Each round first checks the memory budget: holding `iterations` results
/// at once takes `iterations * max(1, size_of::<T>())` bytes, and a round
/// that would overrun `options.memory` ends the loop instead of running.
/// Within the budget, the round collects all results into a buffer inside
/// the timed region and destroys the buffer outside it, so that the time a
/// slow `Drop` takes stays out of the measurements.
pub fn measure_drop<T, R: Routine<T>>(options: &Options, f: R) -> (samples: Vec<Sample>)
    requires
        options.wf(),
    ensures
        iterations_strictly_increase(samples@),
        samples_follow_schedule(samples@, options.factor),
        forall|k: int| 0 <= k < samples@.len() ==> 1 <= #[trigger] samples@[k].iterations <= ITERATIONS,
        samples@.len() > 0 ==> samples@[0].iterations == 1,
        forall|k: int|
            0 <= k < samples@.len()
                ==> #[trigger] samples@[k].iterations * spec_element_size::<T>()
                <= options.memory.0,
{
    let mut f = f;
    let stopwatch = Stopwatch::new();
    let mut sequence = GeometricSequence::new(1, options.factor);
    let mut samples: Vec<Sample> = Vec::new();
    loop
        invariant_except_break
            samples@.len() > 0 ==> samples@[samples@.len() - 1].iterations < sequence.value(),
            samples@.len() == 0 ==> sequence.value() == 1,
            sequence.current as int == nth_accumulator(
                1,
                options.factor as int,
                samples@.len() as nat,
            ),
        invariant
            sequence.wf(),
            sequence.factor == options.factor,
            iterations_strictly_increase(samples@),
            samples_follow_schedule(samples@, options.factor),
            forall|k: int| 0 <= k < samples@.len() ==> 1 <= #[trigger] samples@[k].iterations <= ITERATIONS,
            samples@.len() > 0 ==> samples@[0].iterations == 1,
            forall|k: int|
                0 <= k < samples@.len()
                    ==> #[trigger] samples@[k].iterations * spec_element_size::<T>()
                    <= options.memory.0,
        ensures
            iterations_strictly_increase(samples@),
            samples_follow_schedule(samples@, options.factor),
            forall|k: int| 0 <= k < samples@.len() ==> 1 <= #[trigger] samples@[k].iterations <= ITERATIONS,
            samples@.len() > 0 ==> samples@[0].iterations == 1,
            forall|k: int|
                0 <= k < samples@.len()
                    ==> #[trigger] samples@[k].iterations * spec_element_size::<T>()
                    <= options.memory.0,
        decreases (if sequence.value() <= ITERATIONS as int + 1 {
            ITERATIONS as int + 2 - sequence.value()
        } else {
            0int
        }),
    {
        let i = match sequence.next() {
            Some(i) => i,
            None => { break; },
        };
        if i > ITERATIONS {
            break;
        }
        if stopwatch.elapsed().0 >= options.time.0 {
            break;
        }
        if memory_exceeded(i, element_size::<T>(), options.memory) {
            break;
        }
        let mut outputs: Vec<T> = Vec::with_capacity(#[verifier::truncate] (i as usize));
        let round = Stopwatch::new();
        let mut j: u64 = 0;
        while j < i
            invariant
                j <= i,
            decreases i - j,
        {
            outputs.push(f.run());
            j = j + 1;
        }
        let elapsed = round.elapsed();
        drop_buffer(outputs);
        samples.push(Sample { iterations: i, elapsed });
        proof {
            assert(nth_accumulator(1, options.factor as int, samples@.len() as nat) == settled(
                nth_accumulator(1, options.factor as int, (samples@.len() - 1) as nat),
                options.factor as int,
            ));
        }
    }
    samples
}

/// Measures the execution time of the supplied routine ignoring setup time.
///
/// Each round first checks the memory budget against the input type, as
/// `measure_drop` does against the output type. Within the budget, all
/// `iterations` inputs are produced by the setup routine outside the timed
/// region and held through the anti-optimization barrier; only applying the
/// routine to each prepared input is timed.
pub fn measure_setup<I, T, S: Routine<I>, F: InputRoutine<I, T>>(
    options: &Options,
    setup: S,
    f: F,
) -> (samples: Vec<Sample>)
    requires
        options.wf(),
    ensures
        iterations_strictly_increase(samples@),
        samples_follow_schedule(samples@, options.factor),
        forall|k: int| 0 <= k < samples@.len() ==> 1 <= #[trigger] samples@[k].iterations <= ITERATIONS,
        samples@.len() > 0 ==> samples@[0].iterations == 1,
        forall|k: int|
            0 <= k < samples@.len()
                ==> #[trigger] samples@[k].iterations * spec_element_size::<I>()
                <= options.memory.0,
{
    let mut setup = setup;
    let mut f = f;
    let stopwatch = Stopwatch::new();
    let mut sequence = GeometricSequence::new(1, options.factor);
    let mut samples: Vec<Sample> = Vec::new();
    loop
        invariant_except_break
            samples@.len() > 0 ==> samples@[samples@.len() - 1].iterations < sequence.value(),
            samples@.len() == 0 ==> sequence.value() == 1,
            sequence.current as int == nth_accumulator(
                1,
                options.factor as int,
                samples@.len() as nat,
            ),
        invariant
            sequence.wf(),
            sequence.factor == options.factor,
            iterations_strictly_increase(samples@),
            samples_follow_schedule(samples@, options.factor),
            forall|k: int| 0 <= k < samples@.len() ==> 1 <= #[trigger] samples@[k].iterations <= ITERATIONS,
            samples@.len() > 0 ==> samples@[0].iterations == 1,
            forall|k: int|
                0 <= k < samples@.len()
                    ==> #[trigger] samples@[k].iterations * spec_element_size::<I>()
                    <= options.memory.0,
        ensures
            iterations_strictly_increase(samples@),
            samples_follow_schedule(samples@, options.factor),
            forall|k: int| 0 <= k < samples@.len() ==> 1 <= #[trigger] samples@[k].iterations <= ITERATIONS,
            samples@.len() > 0 ==> samples@[0].iterations == 1,
            forall|k: int|
                0 <= k < samples@.len()
                    ==> #[trigger] samples@[k].iterations * spec_element_size::<I>()
                    <= options.memory.0,
        decreases (if sequence.value() <= ITERATIONS as int + 1 {
            ITERATIONS as int + 2 - sequence.value()
        } else {
            0int
        }),
    {
        let i = match sequence.next() {
            Some(i) => i,
            None => { break; },
        };
        if i > ITERATIONS {
            break;
        }
        if stopwatch.elapsed().0 >= options.time.0 {
            break;
        }
        if memory_exceeded(i, element_size::<I>(), options.memory) {
            break;
        }
        let mut inputs: Vec<I> = Vec::with_capacity(#[verifier::truncate] (i as usize));
        let mut j: u64 = 0;
        while j < i
            invariant
                j <= i,
            decreases i - j,
        {
            inputs.push(setup.run());
            j = j + 1;
        }
        let mut inputs = retain(inputs);
        let round = Stopwatch::new();
        while inputs.len() > 0
            decreases inputs@.len(),
        {
            let input = inputs.pop().unwrap();
            retain(f.run(input));
        }
        let elapsed = round.elapsed();
        samples.push(Sample { iterations: i, elapsed });
        proof {
            assert(nth_accumulator(1, options.factor as int, samples@.len() as nat) == settled(
                nth_accumulator(1, options.factor as int, (samples@.len() - 1) as nat),
                options.factor as int,
            ));
        }
    }
    samples
}

/// Destroys a buffer of collected results, outside the timed region.
fn drop_buffer<T>(outputs: Vec<T>) {
    let _ = outputs;
}

} // verus!
