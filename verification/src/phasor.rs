//! A cyclic phase accumulator.
//!
//! A [`Phasor`] yields positions from `[0, 1)` given a sampling rate and a
//! frequency, advancing by `freq / sample_rate` of a cycle per sample.  Both
//! rates are integers in millihertz, so the accumulated phase is the exact
//! rational `phase / sample_rate` and never drifts, no matter how many
//! samples are pulled.

use vstd::arithmetic::div_mod::{
    lemma_add_mod_noop, lemma_add_mod_noop_right, lemma_div_pos_is_pos,
    lemma_fundamental_div_mod_converse, lemma_multiply_divide_lt, lemma_small_mod,
};
use vstd::arithmetic::mul::lemma_mul_upper_bound;
use vstd::prelude::*;

verus! {

/// Largest admissible sampling rate, in millihertz.  Keeping one bit of
/// headroom under `u64::MAX` lets a phase advance wrap with a single
/// subtraction and no overflow.
pub const MAX_SAMPLE_RATE_MILLIHZ: u64 = 0x7fff_ffff_ffff_ffff;

/// One phase position: the exact rational `numerator / denominator`,
/// a value in `[0, 1)` describing how far into its cycle an oscillator is.
#[derive(Clone, Copy, Debug, PartialEq, Eq, Structural)]
pub struct Phase {
    pub numerator: u64,
    pub denominator: u64,
}

impl Phase {
    /// A phase is a proper fraction: strictly below one whole cycle.
    pub open spec fn wf(self) -> bool {
        self.numerator < self.denominator
    }
}

/// Mathematical model of a [`Phasor`]: its sampling rate and frequency in
/// millihertz, and its position as the numerator of `phase / sample_rate`.
pub ghost struct PhasorModel {
    pub sample_rate: int,
    pub freq: int,
    pub phase: int,
}

impl PhasorModel {
    /// The phasor invariant: a positive, bounded sampling rate, a frequency
    /// of at most one cycle per sample, and a position within one cycle.
    pub open spec fn wf(self) -> bool {
        &&& 0 < self.sample_rate <= MAX_SAMPLE_RATE_MILLIHZ
        &&& 0 <= self.freq <= self.sample_rate
        &&& 0 <= self.phase < self.sample_rate
    }
}

/// A cyclic phasor that yields positions from `[0, 1)` given a sampling rate
/// and a frequency, both in millihertz.
///
/// The position advances by `freq / sample_rate` per pulled sample and wraps
/// around once it reaches one whole cycle; because `freq <= sample_rate`, a
/// single wraparound per step suffices.
#[derive(Clone, Copy, Debug)]
pub struct Phasor {
    sample_rate: u64,
    freq: u64,
    phase: u64,
}

impl View for Phasor {
    type V = PhasorModel;

    closed spec fn view(&self) -> PhasorModel {
        PhasorModel {
            sample_rate: self.sample_rate as int,
            freq: self.freq as int,
            phase: self.phase as int,
        }
    }
}

impl Phasor {
    pub open spec fn wf(self) -> bool {
        self@.wf()
    }

    /// Constructs a phasor at position zero.
    ///
    /// The sampling rate must be positive and bounded, and the frequency at
    /// most the sampling rate; zero frequency gives a phasor that never
    /// advances.
    pub fn new(sample_rate: u64, freq: u64) -> (r: Self)
        requires
            0 < sample_rate <= MAX_SAMPLE_RATE_MILLIHZ,
            freq <= sample_rate,
        ensures
            r.wf(),
            r@.sample_rate == sample_rate,
            r@.freq == freq,
            r@.phase == 0,
    {
        Phasor { sample_rate, freq, phase: 0 }
    }

    /// Resets the position to zero without touching the sampling rate or the
    /// frequency.
    pub fn reset(&mut self)
        requires
            old(self).wf(),
        ensures
            final(self).wf(),
            final(self)@.sample_rate == old(self)@.sample_rate,
            final(self)@.freq == old(self)@.freq,
            final(self)@.phase == 0,
    {
        self.phase = 0;
    }

    /// The current sampling rate, in millihertz.
    pub fn sample_rate(&self) -> (r: u64)
        ensures
            r == self@.sample_rate,
    {
        self.sample_rate
    }

    /// The current frequency, in millihertz.
    pub fn freq(&self) -> (r: u64)
        ensures
            r == self@.freq,
    {
        self.freq
    }

    /// Changes the sampling rate, but not the frequency.
    ///
    /// The position keeps its place in the cycle as nearly as the new
    /// resolution allows: the numerator is rescaled to the new denominator,
    /// rounding down.
    pub fn set_sample_rate(&mut self, sample_rate: u64)
        requires
            old(self).wf(),
            0 < sample_rate <= MAX_SAMPLE_RATE_MILLIHZ,
            old(self)@.freq <= sample_rate,
        ensures
            final(self).wf(),
            final(self)@.sample_rate == sample_rate,
            final(self)@.freq == old(self)@.freq,
            final(self)@.phase == old(self)@.phase * sample_rate / old(self)@.sample_rate,
    {
        proof {
            lemma_rescaled_phase_in_range(self@.phase, self@.sample_rate, sample_rate as int);
            lemma_mul_upper_bound(
                self@.phase,
                MAX_SAMPLE_RATE_MILLIHZ as int,
                sample_rate as int,
                MAX_SAMPLE_RATE_MILLIHZ as int,
            );
        }
        let scaled: u64 =
            (((self.phase as u128) * (sample_rate as u128)) / (self.sample_rate as u128)) as u64;
        self.phase = scaled;
        self.sample_rate = sample_rate;
    }

    /// Changes the frequency, but not the sampling rate or the position.
    ///
    /// The new frequency must not exceed the sampling rate.
    pub fn set_freq(&mut self, freq: u64)
        requires
            old(self).wf(),
            freq <= old(self)@.sample_rate,
        ensures
            final(self).wf(),
            final(self)@.sample_rate == old(self)@.sample_rate,
            final(self)@.freq == freq,
            final(self)@.phase == old(self)@.phase,
    {
        self.freq = freq;
    }

    /// Returns the current position, then advances by `freq / sample_rate`
    /// of a cycle, wrapping around once the position reaches a whole cycle.
    pub fn next_phase(&mut self) -> (r: Phase)
        requires
            old(self).wf(),
        ensures
            final(self).wf(),
            r.wf(),
            r.numerator == old(self)@.phase,
            r.denominator == old(self)@.sample_rate,
            final(self)@.sample_rate == old(self)@.sample_rate,
            final(self)@.freq == old(self)@.freq,
            final(self)@.phase
                == (old(self)@.phase + old(self)@.freq) % old(self)@.sample_rate,
    {
        let value = Phase { numerator: self.phase, denominator: self.sample_rate };
        proof {
            lemma_single_wraparound(self@.phase, self@.freq, self@.sample_rate);
        }
        self.phase = self.phase + self.freq;
        if self.phase >= self.sample_rate {
            self.phase = self.phase - self.sample_rate;
        }
        value
    }
}

/// The position reached after `k` advances by `freq` out of `sample_rate`,
/// starting from `start`: the value the `k + 1`-th `next_phase` call returns.
pub open spec fn phase_after(start: int, freq: int, sample_rate: int, k: nat) -> int
    decreases k,
{
    if k == 0 {
        start
    } else {
        (phase_after(start, freq, sample_rate, (k - 1) as nat) + freq) % sample_rate
    }
}

/// Law: after `k` advances the position equals `(start + k * freq) mod
/// sample_rate` — as a fraction of a cycle, `(k * freq / sample_rate) mod 1`
/// when started from zero.  Accumulating stepwise loses nothing.
pub proof fn lemma_phase_after_closed_form(start: int, freq: int, sample_rate: int, k: nat)
    requires
        0 < sample_rate,
        0 <= start < sample_rate,
        0 <= freq,
    ensures
        phase_after(start, freq, sample_rate, k) == (start + k * freq) % sample_rate,
    decreases k,
{
    if k == 0 {
        lemma_small_mod(start as nat, sample_rate as nat);
    } else {
        let j = (k - 1) as nat;
        lemma_phase_after_closed_form(start, freq, sample_rate, j);
        lemma_add_mod_noop_right((start + j * freq) % sample_rate, freq, sample_rate);
        lemma_add_mod_noop(start + j * freq, freq, sample_rate);
        assert(j * freq + freq == k * freq) by (nonlinear_arith)
            requires
                j == k - 1,
        ;
    }
}

/// Rescaling a proper numerator to a new positive denominator, rounding
/// down, yields a proper numerator again.
proof fn lemma_rescaled_phase_in_range(phase: int, old_rate: int, new_rate: int)
    requires
        0 <= phase < old_rate,
        0 < new_rate,
    ensures
        0 <= phase * new_rate / old_rate < new_rate,
{
    assert(0 <= phase * new_rate) by (nonlinear_arith)
        requires
            0 <= phase && 0 < new_rate,
    ;
    assert(phase * new_rate < old_rate * new_rate) by (nonlinear_arith)
        requires
            phase < old_rate && 0 < new_rate,
    ;
    lemma_div_pos_is_pos(phase * new_rate, old_rate);
    lemma_multiply_divide_lt(phase * new_rate, old_rate, new_rate);
}

/// With `phase < sample_rate` and `freq <= sample_rate`, one conditional
/// subtraction computes the advance modulo the sampling rate.
proof fn lemma_single_wraparound(phase: int, freq: int, sample_rate: int)
    requires
        0 <= phase < sample_rate,
        0 <= freq <= sample_rate,
    ensures
        phase + freq < sample_rate ==> (phase + freq) % sample_rate == phase + freq,
        phase + freq >= sample_rate ==> (phase + freq) % sample_rate
            == phase + freq - sample_rate,
{
    if phase + freq < sample_rate {
        lemma_small_mod((phase + freq) as nat, sample_rate as nat);
    } else {
        lemma_fundamental_div_mod_converse(
            phase + freq,
            sample_rate,
            1,
            phase + freq - sample_rate,
        );
    }
}

} // verus!
