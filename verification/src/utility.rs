//! Miscellaneous utilities.

use vstd::prelude::*;
use vstd::arithmetic::div_mod::{
    lemma_div_is_ordered, lemma_div_multiples_vanish, lemma_fundamental_div_mod,
    lemma_fundamental_div_mod_converse, lemma_hoist_over_denominator, lemma_mod_bound,
};

verus! {

/// The fixed-point representation of a growth factor of exactly 1.0: factors
/// carry 32 fractional bits (2^32).
pub const FACTOR_ONE: u64 = 0x1_0000_0000;

/// The largest accepted fixed-point growth factor, 2^44 (a real-valued factor
/// of 4096). Together with `VALUE_LIMIT` it keeps every intermediate product
/// of the sequence inside `u128`.
pub const FACTOR_LIMIT: u64 = 0x1000_0000_0000;

/// The largest value a sequence emits, 2^52 - 1; past it, `next` reports
/// exhaustion.
pub const VALUE_LIMIT: u64 = 0xF_FFFF_FFFF_FFFF;

/// The exclusive upper bound kept on a sequence's fixed-point accumulator,
/// 2^96.
pub const CURRENT_LIMIT: u128 = 0x1_0000_0000_0000_0000_0000_0000;

/// A function that prevents the optimizer from eliminating the supplied value.
///
/// Relies on `std::hint::black_box`, which its documentation describes as an
/// identity function that the optimizer is maximally pessimistic about: the
/// value is returned unchanged, but is treated as observed.
#[verifier::external_body]
pub fn black_box<T>(dummy: T) -> (r: T)
    ensures
        r == dummy,
{
    std::hint::black_box(dummy)
}

/// One fixed-point multiplication of an accumulator by a growth factor:
/// the exact value of `current * factor / 2^32`, rounded down.
pub open spec fn grow(current: int, factor: int) -> int {
    current * factor / (FACTOR_ONE as int)
}

/// The inputs on which an emission step is defined: an accumulator of at
/// least 1.0 in the working range, and a factor above 1.0.
pub open spec fn settle_defined(current: int, factor: int) -> bool {
    FACTOR_ONE as int <= current && current < CURRENT_LIMIT as int && (FACTOR_ONE as int)
        < factor
}

/// The accumulator after one full emission step from `current`: it is grown
/// once, then again as long as its integer value has not moved, so that the
/// next emission is a fresh value. (The bound on `CURRENT_LIMIT` only closes
/// the definition; a step that starts from an emittable value stays far
/// below it.)
pub open spec fn settled(current: int, factor: int) -> int
    decreases CURRENT_LIMIT as int - current,
    when settle_defined(current, factor)
    via settled_decreases
{
    let next = grow(current, factor);
    if next / (FACTOR_ONE as int) > current / (FACTOR_ONE as int) || next >= CURRENT_LIMIT as int {
        next
    } else {
        settled(next, factor)
    }
}

#[via_fn]
proof fn settled_decreases(current: int, factor: int) {
    lemma_grow_increases(current, factor);
}

/// The accumulator of a sequence seeded at `start` after `n` emissions.
pub open spec fn nth_accumulator(start: int, factor: int, n: nat) -> int
    decreases n,
{
    if n == 0 {
        start * (FACTOR_ONE as int)
    } else {
        settled(nth_accumulator(start, factor, (n - 1) as nat), factor)
    }
}

/// The `n`-th value a sequence seeded at `start` emits: the integer part of
/// the accumulator the `n`-th round starts from.
pub open spec fn nth_emission(start: int, factor: int, n: nat) -> int {
    nth_accumulator(start, factor, n) / (FACTOR_ONE as int)
}

/// Law: growing an accumulator that holds at least 1.0 by a factor above 1.0
/// moves it up by at least one, whatever the rounding takes away.
pub proof fn lemma_grow_increases(current: int, factor: int)
    requires
        FACTOR_ONE as int <= current,
        (FACTOR_ONE as int) < factor,
    ensures
        grow(current, factor) >= current + 1,
{
    let s = FACTOR_ONE as int;
    assert(current * factor >= current * s + current) by (nonlinear_arith)
        requires
            factor >= s + 1,
            current >= 0,
    ;
    assert((current * s + current) / s == current + current / s) by {
        lemma_hoist_over_denominator(current, current, FACTOR_ONE as nat);
        assert(current * s == current * (FACTOR_ONE as nat) as int);
    };
    lemma_div_is_ordered(current * s + current, current * factor, s);
    lemma_div_is_ordered(s, current, s);
    lemma_div_multiples_vanish(1, s);
    assert(current / s >= 1);
}

/// Law: growing an accumulator never lowers its integer value.
pub proof fn lemma_grow_keeps_value(current: int, factor: int)
    requires
        FACTOR_ONE as int <= current,
        (FACTOR_ONE as int) < factor,
    ensures
        grow(current, factor) / (FACTOR_ONE as int) >= current / (FACTOR_ONE as int),
{
    lemma_grow_increases(current, factor);
    lemma_div_is_ordered(current, grow(current, factor), FACTOR_ONE as int);
}

/// Law: one emission step from an accumulator whose value is still emittable
/// strictly raises the value, and leaves the accumulator in the working
/// range.
pub proof fn lemma_settled_moves_value(current: int, factor: int)
    requires
        FACTOR_ONE as int <= current,
        (FACTOR_ONE as int) < factor,
        factor <= FACTOR_LIMIT as int,
        current / (FACTOR_ONE as int) <= VALUE_LIMIT as int,
    ensures
        settled(current, factor) / (FACTOR_ONE as int) > current / (FACTOR_ONE as int),
        settled(current, factor) > current,
        settled(current, factor) < CURRENT_LIMIT as int,
    decreases CURRENT_LIMIT as int - current,
{
    let s = FACTOR_ONE as int;
    let v = current / s;
    lemma_fundamental_div_mod(current, s);
    lemma_mod_bound(current, s);
    assert(current < (v + 1) * s) by (nonlinear_arith)
        requires
            current == s * v + current % s,
            current % s < s,
    ;
    assert(current * factor <= CURRENT_LIMIT as int * s - 1) by (nonlinear_arith)
        requires
            s == FACTOR_ONE as int,
            0 <= current < (v + 1) * s,
            v + 1 <= VALUE_LIMIT as int + 1,
            0 < factor <= FACTOR_LIMIT as int,
            VALUE_LIMIT == 0xF_FFFF_FFFF_FFFFu64,
            FACTOR_ONE == 0x1_0000_0000u64,
            FACTOR_LIMIT == 0x1000_0000_0000u64,
            CURRENT_LIMIT == 0x1_0000_0000_0000_0000_0000_0000u128,
    ;
    let next = grow(current, factor);
    lemma_grow_increases(current, factor);
    lemma_grow_keeps_value(current, factor);
    lemma_div_is_ordered(current * factor, CURRENT_LIMIT as int * s - 1, s);
    assert((CURRENT_LIMIT as int * s - 1) / s == CURRENT_LIMIT as int - 1) by {
        lemma_fundamental_div_mod_converse(
            CURRENT_LIMIT as int * s - 1,
            s,
            CURRENT_LIMIT as int - 1,
            s - 1,
        );
        assert(CURRENT_LIMIT as int * s - 1 == s * (CURRENT_LIMIT as int - 1) + (s - 1))
            by (nonlinear_arith)
            requires
                s == FACTOR_ONE as int,
        ;
    };
    assert(next < CURRENT_LIMIT as int);
    if next / s > v {
        assert(settled(current, factor) == next);
    } else {
        assert(next / s == v);
        assert(settled(current, factor) == settled(next, factor));
        lemma_settled_moves_value(next, factor);
    }
}

/// The schedule seeded at `start` is still live at step `n`: every emission
/// before the `n`-th lay within `VALUE_LIMIT`, so the de-duplication has a
/// fresh value to move to at each step so far.
pub open spec fn schedule_live(start: int, factor: int, n: nat) -> bool
    decreases n,
{
    n == 0 || (schedule_live(start, factor, (n - 1) as nat) && nth_emission(
        start,
        factor,
        (n - 1) as nat,
    ) <= VALUE_LIMIT as int)
}

/// Law: a schedule seeded at `start >= 1` with a factor above 1.0 opens with
/// `start` itself, and, as long as it is live, emits strictly increasing —
/// and so never repeating — values.
pub proof fn lemma_schedule_strictly_increases(start: int, factor: int, n: nat)
    requires
        1 <= start <= 0xFFFF_FFFF_FFFF_FFFFint,
        (FACTOR_ONE as int) < factor <= FACTOR_LIMIT as int,
        schedule_live(start, factor, n),
    ensures
        nth_emission(start, factor, 0) == start,
        FACTOR_ONE as int <= nth_accumulator(start, factor, n),
        nth_accumulator(start, factor, n) < CURRENT_LIMIT as int,
        forall|j: nat|
            j < n ==> #[trigger] nth_emission(start, factor, j) < nth_emission(start, factor, n),
    decreases n,
{
    let s = FACTOR_ONE as int;
    assert(start * s < CURRENT_LIMIT as int) by (nonlinear_arith)
        requires
            start <= 0xFFFF_FFFF_FFFF_FFFFint,
            s == FACTOR_ONE as int,
            FACTOR_ONE == 0x1_0000_0000u64,
            CURRENT_LIMIT == 0x1_0000_0000_0000_0000_0000_0000u128,
    ;
    assert(s * 1 <= start * s) by (nonlinear_arith)
        requires
            1 <= start,
            0 < s,
    ;
    lemma_div_multiples_vanish(start, s);
    assert(start * s == s * start);
    if n > 0 {
        let m = (n - 1) as nat;
        lemma_schedule_strictly_increases(start, factor, m);
        lemma_settled_moves_value(nth_accumulator(start, factor, m), factor);
        assert(nth_accumulator(start, factor, n) == settled(
            nth_accumulator(start, factor, m),
            factor,
        ));
        assert forall|j: nat| j < n implies #[trigger] nth_emission(start, factor, j)
            < nth_emission(start, factor, n) by {
            if j < m {
                assert(nth_emission(start, factor, j) < nth_emission(start, factor, m));
            }
        }
    }
}

/// Generates unique values from a geometric sequence.
///
/// The real-valued state of the sequence is held in fixed point with 32
/// fractional bits, so that every step is exact integer arithmetic: the
/// accumulator `current` stands for `current / 2^32` and the growth factor
/// for `factor / 2^32`.
#[derive(Copy, Clone, Debug)]
pub struct GeometricSequence {
    /// The fixed-point accumulator, `2^32` times the real-valued state.
    pub current: u128,
    /// The fixed-point growth factor, `2^32` times the real-valued factor.
    pub factor: u64,
}

impl GeometricSequence {
    /// The sequence is well formed: the factor is above 1.0 and within range,
    /// and the accumulator holds at least 1.0 and fits the working range.
    pub open spec fn wf(self) -> bool {
        &&& FACTOR_ONE < self.factor <= FACTOR_LIMIT
        &&& FACTOR_ONE as u128 <= self.current < CURRENT_LIMIT
    }

    /// The integer value the sequence stands at: the accumulator rounded down.
    pub open spec fn value(self) -> int {
        self.current as int / FACTOR_ONE as int
    }

    /// Constructs a new `GeometricSequence`.
    ///
    /// `factor` is the growth factor in fixed point with 32 fractional bits:
    /// `FACTOR_ONE` stands for 1.0, and the factor must lie strictly above it.
    pub fn new(start: u64, factor: u64) -> (s: Self)
        requires
            1 <= start,
            FACTOR_ONE < factor <= FACTOR_LIMIT,
        ensures
            s.wf(),
            s.current == start * FACTOR_ONE,
            s.value() == start,
            s.factor == factor,
    {
        proof {
            assert((start as int) * (FACTOR_ONE as int) < CURRENT_LIMIT as int)
                by (nonlinear_arith)
                requires
                    start as int <= 0xFFFF_FFFF_FFFF_FFFFint,
                    FACTOR_ONE == 0x1_0000_0000u64,
                    CURRENT_LIMIT == 0x1_0000_0000_0000_0000_0000_0000u128,
            ;
        }
        let current: u128 = (start as u128) * (FACTOR_ONE as u64 as u128);
        proof {
            assert(current as int == FACTOR_ONE as int * start as int) by (nonlinear_arith)
                requires
                    current as int == start as int * FACTOR_ONE as int,
            ;
            lemma_div_multiples_vanish(start as int, FACTOR_ONE as int);
        }
        GeometricSequence { current, factor }
    }

    /// Emits the value the sequence stands at, then multiplies the accumulator
    /// by the factor until the value changes, so that no value is ever emitted
    /// twice. Returns `None` once the sequence has outgrown `VALUE_LIMIT`.
    pub fn next(&mut self) -> (r: Option<u64>)
        requires
            old(self).wf(),
        ensures
            final(self).wf(),
            final(self).factor == old(self).factor,
            match r {
                Some(v) => {
                    &&& v as int == old(self).value()
                    &&& 1 <= v <= VALUE_LIMIT
                    &&& final(self).current as int == settled(
                        old(self).current as int,
                        old(self).factor as int,
                    )
                    &&& final(self).value() > old(self).value()
                },
                None => *final(self) == *old(self) && old(self).value() > VALUE_LIMIT,
            },
    {
        let scale: u128 = 0x1_0000_0000;
        let v_wide: u128 = self.current / scale;
        proof {
            lemma_div_is_ordered(FACTOR_ONE as int, self.current as int, FACTOR_ONE as int);
            lemma_div_multiples_vanish(1, FACTOR_ONE as int);
        }
        if v_wide > VALUE_LIMIT as u64 as u128 {
            return None;
        }
        let v: u64 = v_wide as u64;
        while self.current / scale == v as u128
            invariant
                scale == FACTOR_ONE as u128,
                FACTOR_ONE < self.factor <= FACTOR_LIMIT,
                self.factor == old(self).factor,
                1 <= v <= VALUE_LIMIT,
                v as int == old(self).value(),
                FACTOR_ONE as u128 <= self.current < CURRENT_LIMIT,
                self.value() >= v as int,
                (if self.value() == v as int {
                    settled(self.current as int, self.factor as int) == settled(
                        old(self).current as int,
                        self.factor as int,
                    )
                } else {
                    self.current as int == settled(old(self).current as int, self.factor as int)
                }),
            decreases CURRENT_LIMIT as int - self.current as int,
        {
            let ghost prev: int = self.current as int;
            proof {
                // While the value has not moved past `v`, the accumulator is
                // below `(v + 1) * 2^32 <= 2^84`, so the product with a factor
                // of at most 2^44 stays below 2^128.
                lemma_fundamental_div_mod(prev, FACTOR_ONE as int);
                lemma_mod_bound(prev, FACTOR_ONE as int);
                assert(prev < (v as int + 1) * (FACTOR_ONE as int)) by (nonlinear_arith)
                    requires
                        prev == FACTOR_ONE as int * (v as int) + prev % (FACTOR_ONE as int),
                        prev % (FACTOR_ONE as int) < FACTOR_ONE as int,
                ;
                assert(prev * (self.factor as int) <= CURRENT_LIMIT as int * (FACTOR_ONE as int)
                    - 1) by (nonlinear_arith)
                    requires
                        0 <= prev < (v as int + 1) * (FACTOR_ONE as int),
                        v as int + 1 <= VALUE_LIMIT as int + 1,
                        0 < self.factor as int <= FACTOR_LIMIT as int,
                        VALUE_LIMIT == 0xF_FFFF_FFFF_FFFFu64,
                        FACTOR_ONE == 0x1_0000_0000u64,
                        FACTOR_LIMIT == 0x1000_0000_0000u64,
                        CURRENT_LIMIT == 0x1_0000_0000_0000_0000_0000_0000u128,
                ;
            }
            self.current = (self.current * (self.factor as u128)) / scale;
            proof {
                let f = self.factor as int;
                let s = FACTOR_ONE as int;
                assert(self.current as int == grow(prev, f));
                lemma_grow_increases(prev, f);
                lemma_grow_keeps_value(prev, f);
                // The accumulator stays below 2^96, since the product stayed
                // below 2^96 * 2^32.
                lemma_div_is_ordered(prev * f, CURRENT_LIMIT as int * s - 1, s);
                assert((CURRENT_LIMIT as int * s - 1) / s == CURRENT_LIMIT as int - 1) by {
                    lemma_fundamental_div_mod_converse(
                        CURRENT_LIMIT as int * s - 1,
                        s,
                        CURRENT_LIMIT as int - 1,
                        s - 1,
                    );
                    assert(CURRENT_LIMIT as int * s - 1 == s * (CURRENT_LIMIT as int - 1) + (s
                        - 1)) by (nonlinear_arith)
                        requires
                            s == FACTOR_ONE as int,
                    ;
                };
                // One unfolding of `settled` carries the chain one link on:
                // while the value stands still the settled state is shared,
                // and the growth that moves it is the settled state itself.
                assert(settled(prev, f) == if grow(prev, f) / s > prev / s {
                    grow(prev, f)
                } else {
                    settled(grow(prev, f), f)
                });
            }
        }
        Some(v)
    }
}

} // verus!
