//! Clock primitives and waveform functions.
//!
//! A [`TimeGen`] counts elapsed samples and reports elapsed seconds; a
//! [`PhaseGen`] accumulates phase as an exact rational number of turns.
//! The waveform functions map a fixed-point time or phase (in turns) to a
//! fixed-point amplitude in `[-ONE, ONE]`.

use crate::fixed::{floor_div_one, rem_euclid_one, sat_i64, FIX_MAX, HALF, ONE};
use vstd::arithmetic::div_mod::{
    lemma_fundamental_div_mod, lemma_mod_multiples_vanish, lemma_multiply_divide_lt,
    lemma_small_mod,
};
use vstd::prelude::*;

verus! {

/// An elapsed-time accumulator: each call of `next` reports the seconds
/// elapsed so far and counts one more sample.
pub struct TimeGen {
    /// Number of samples already produced.
    pub ticks: u64,
    /// Samples per second; always at least 1.
    pub sample_rate: u32,
}

/// Makes a fresh elapsed-time accumulator at `sample_rate` samples per second.
pub fn time(sample_rate: u32) -> (g: TimeGen)
    requires
        sample_rate >= 1,
    ensures
        g.ticks == 0,
        g.sample_rate == sample_rate,
        g.wf(),
{
    TimeGen { ticks: 0, sample_rate }
}

impl TimeGen {
    /// The accumulator is usable: its sample rate is positive.
    pub open spec fn wf(self) -> bool {
        self.sample_rate >= 1
    }

    /// The elapsed seconds this state reports, in fixed point:
    /// `ticks / sample_rate` seconds, truncated to the fixed-point grid.
    pub open spec fn value_spec(self) -> int {
        sat_i64((self.ticks as int * 65536) / (self.sample_rate as int))
    }

    /// The state after one call: one more sample counted (the count stays
    /// put once it reaches the top of `u64`, which a real render never does).
    pub open spec fn advanced(self) -> TimeGen {
        TimeGen {
            ticks: if self.ticks < u64::MAX { (self.ticks + 1) as u64 } else { self.ticks },
            sample_rate: self.sample_rate,
        }
    }

    /// Reports the elapsed time, then counts one more sample.
    pub fn next(&mut self) -> (t: i64)
        requires
            old(self).wf(),
        ensures
            t as int == old(self).value_spec(),
            0 <= t,
            *final(self) == old(self).advanced(),
            final(self).wf(),
    {
        let v: u128 = (self.ticks as u128) * 65536 / (self.sample_rate as u128);
        let t: i64 = if v > i64::MAX as u128 {
            i64::MAX
        } else {
            v as i64
        };
        if self.ticks < u64::MAX {
            self.ticks = self.ticks + 1;
        }
        t
    }
}

/// The time accumulator state after `n` calls of `next` from state `g`.
pub open spec fn time_after(g: TimeGen, n: nat) -> TimeGen
    decreases n,
{
    if n == 0 {
        g
    } else {
        time_after(g, (n - 1) as nat).advanced()
    }
}

/// Law: from a fresh accumulator, the outputs of successive `next` calls are
/// `0, ONE/sr, 2*ONE/sr, ...` in order — the call made after `k` earlier
/// calls reports exactly `k` sample periods of elapsed time.
pub proof fn lemma_time_sequence(g: TimeGen, k: nat)
    requires
        g.wf(),
        g.ticks == 0,
        k <= u64::MAX,
    ensures
        time_after(g, k).ticks == k,
        time_after(g, k).sample_rate == g.sample_rate,
        time_after(g, k).value_spec() == sat_i64((k * 65536) as int / (g.sample_rate as int)),
    decreases k,
{
    if k > 0 {
        lemma_time_sequence(g, (k - 1) as nat);
    }
}

/// A phase accumulator: the phase is the exact rational `num / den` of a
/// turn, with `den` fixed at construction as `sample_rate * ONE`, so that
/// advancing by a fixed-point frequency is exact and never drifts.
pub struct PhaseGen {
    /// Numerator of the current phase; always below `den`.
    pub num: u64,
    /// Denominator: the sample rate times `ONE`.
    pub den: u64,
}

/// Makes a fresh phase accumulator (phase 0) for `sample_rate` samples per
/// second.
pub fn phase(sample_rate: u32) -> (g: PhaseGen)
    requires
        sample_rate >= 1,
    ensures
        g.num == 0,
        g.den == sample_rate as int * 65536,
        g.wf(),
{
    PhaseGen { num: 0, den: (sample_rate as u64) * 65536 }
}

impl PhaseGen {
    /// The accumulator is usable: the phase is a proper fraction and the
    /// denominator is in the range construction gives it.
    pub open spec fn wf(self) -> bool {
        &&& 1 <= self.den <= 0x1000000000000
        &&& self.num < self.den
    }

    /// The phase this state reports: `num/den` of a turn on the fixed-point
    /// grid, always in `[0, ONE)`.
    pub open spec fn out_spec(self) -> int {
        (self.num as int * 65536) / (self.den as int)
    }

    /// The state after one call at fixed-point frequency `freq`: the phase
    /// advances by `freq / (sample_rate * ONE)` of a turn, modulo one turn.
    pub open spec fn advanced(self, freq: u64) -> PhaseGen {
        PhaseGen { num: ((self.num + freq) % (self.den as int)) as u64, den: self.den }
    }

    /// Reports the current phase, then advances it by `freq / sample_rate`
    /// of a turn (frequency in fixed-point hertz), wrapping modulo one turn.
    pub fn next(&mut self, freq: u64) -> (p: i64)
        requires
            old(self).wf(),
            freq <= 0x1000000000000,
        ensures
            p as int == old(self).out_spec(),
            0 <= p < ONE,
            *final(self) == old(self).advanced(freq),
            final(self).wf(),
    {
        let v: u128 = (self.num as u128) * 65536 / (self.den as u128);
        proof {
            lemma_multiply_divide_lt(self.num as int * 65536, self.den as int, 65536);
        }
        self.num = (self.num + freq) % self.den;
        v as i64
    }
}

/// Law: a call whose frequency equals the sample rate (in fixed point,
/// `sample_rate * ONE`) advances the phase by exactly one full turn: the
/// state — and with it every output that follows — is unchanged.
pub proof fn lemma_phase_full_cycle(g: PhaseGen, sample_rate: u32)
    requires
        g.wf(),
        g.den == sample_rate as int * 65536,
    ensures
        g.advanced((sample_rate as u64 * 65536) as u64) == g,
{
    lemma_mod_multiples_vanish(1, g.num as int, g.den as int);
    lemma_small_mod(g.num as nat, g.den as nat);
}

/// Square wave over one turn: `ONE` on the first half of each cycle,
/// `-ONE` on the second. The cycle position is `t mod 1` into `[0, 1)`,
/// so the wave is a single periodic function over all of time.
pub open spec fn square_spec(t: int) -> int {
    if t % 65536 < 32768 {
        65536
    } else {
        -65536
    }
}

/// Square waveform at fixed-point time `t` (in turns).
pub fn square(t: i64) -> (r: i64)
    ensures
        r as int == square_spec(t as int),
        -ONE <= r <= ONE,
{
    let m: i64 = rem_euclid_one(t);
    if m < HALF {
        ONE
    } else {
        -ONE
    }
}

/// Sawtooth over one turn: twice the signed distance from `t` to the
/// nearest whole turn, a ramp through `[-ONE, ONE)`.
pub open spec fn saw_spec(t: int) -> int {
    2 * (t - 65536 * ((t + 32768) / 65536))
}

/// Sawtooth waveform at fixed-point time `t` (in turns).
pub fn saw(t: i64) -> (r: i64)
    requires
        -FIX_MAX <= t <= FIX_MAX,
    ensures
        r as int == saw_spec(t as int),
        -ONE <= r < ONE,
{
    let f: i64 = floor_div_one(t + HALF);
    proof {
        lemma_fundamental_div_mod(t as int + 32768, 65536);
    }
    let d: i64 = ((t as i128) - (f as i128) * 65536) as i64;
    2 * d
}

/// Triangle over one turn: `2 * |saw| - ONE`, rising from `-ONE` at whole
/// turns to `ONE` at half turns.
pub open spec fn triangle_spec(t: int) -> int {
    let s = saw_spec(t);
    2 * (if s >= 0 {
        s
    } else {
        -s
    }) - 65536
}

/// Triangle waveform at fixed-point time `t` (in turns).
pub fn triangle(t: i64) -> (r: i64)
    requires
        -FIX_MAX <= t <= FIX_MAX,
    ensures
        r as int == triangle_spec(t as int),
        -ONE <= r <= ONE,
{
    let s: i64 = saw(t);
    let a: i64 = if s >= 0 {
        s
    } else {
        -s
    };
    2 * a - ONE
}

/// Sine over one turn, as the engine defines it: the piecewise parabola
/// `16*m*(HALF-m)/ONE` on the first half cycle and its negative mirror on
/// the second, where `m` is the phase within the cycle. It agrees with the
/// exact sine at 0, quarter, half and three-quarter turns and stays within
/// a few percent of it elsewhere.
pub open spec fn sin_spec(t: int) -> int {
    let m = t % 65536;
    if m <= 32768 {
        (16 * (m * (32768 - m))) / 65536
    } else {
        -((16 * ((m - 32768) * (65536 - m))) / 65536)
    }
}

/// Sine waveform at fixed-point time `t` (in turns).
pub fn sin(t: i64) -> (r: i64)
    ensures
        r as int == sin_spec(t as int),
        -ONE <= r <= ONE,
{
    let m: i64 = rem_euclid_one(t);
    if m <= HALF {
        proof {
            assert(m * (32768 - m) <= 268435456) by (nonlinear_arith)
                requires
                    0 <= m <= 32768,
            ;
        }
        let prod: i64 = m * (HALF - m);
        let p: i64 = 16 * prod;
        ((p as u64) / 65536) as i64
    } else {
        proof {
            assert((m - 32768) * (65536 - m) <= 268435456) by (nonlinear_arith)
                requires
                    32768 < m < 65536,
            ;
            assert((m - 32768) * (65536 - m) >= 0) by (nonlinear_arith)
                requires
                    32768 < m < 65536,
            ;
        }
        let prod: i64 = (m - HALF) * (ONE - m);
        let p: i64 = 16 * prod;
        -(((p as u64) / 65536) as i64)
    }
}

/// The deterministic pseudo-noise value for millisecond index `x0`:
/// a multiply-xor-shift hash of `x0`, all arithmetic modulo `2^32`,
/// masked to 31 bits.
pub open spec fn noise_hash(x0: u32) -> int {
    let x1 = (x0 >> 13) ^ x0;
    let w1 = (x1 as int * x1 as int) % 0x100000000;
    let w2 = (w1 * 15731) % 0x100000000;
    let w3 = (w2 + 789221) % 0x100000000;
    let w4 = (x1 as int * w3) % 0x100000000;
    let w5 = (w4 + 1376312589) % 0x100000000;
    w5 % 0x80000000
}

/// The pseudo-noise amplitude at seed `seed` and fixed-point time `t`:
/// the time is quantized to milliseconds, offset by the seed (wrapping),
/// hashed, and mapped into `(-ONE, ONE]`.
pub open spec fn noise_spec(seed: u32, t: int) -> int {
    let ms = (t * 1000) / 65536;
    let msu = if ms < 0 {
        0
    } else if ms > u32::MAX {
        u32::MAX as int
    } else {
        ms
    };
    let x0 = (msu + seed) % 0x100000000;
    65536 - (noise_hash(x0 as u32) * 65536) / 0x40000000
}

/// Deterministic pseudo-noise: a pure function of `(seed, t)`, so equal
/// arguments always give the equal output and renders are reproducible.
pub fn noise(seed: u32, t: i64) -> (r: i64)
    requires
        -FIX_MAX <= t <= FIX_MAX,
    ensures
        r as int == noise_spec(seed, t as int),
        -ONE <= r <= ONE,
{
    let ms: i64 = floor_div_one(t * 1000);
    let msu: u32 = if ms < 0 {
        0
    } else if ms > u32::MAX as i64 {
        u32::MAX
    } else {
        ms as u32
    };
    let x0: u32 = ((msu as u64 + seed as u64) % 0x100000000) as u32;
    let x1: u64 = ((x0 >> 13) ^ x0) as u64;
    proof {
        assert(x1 * x1 < 0x10000000000000000) by (nonlinear_arith)
            requires
                x1 < 0x100000000,
        ;
    }
    let w1: u64 = (x1 * x1) % 0x100000000;
    let w2: u64 = (w1 * 15731) % 0x100000000;
    let w3: u64 = (w2 + 789221) % 0x100000000;
    proof {
        assert(x1 * w3 < 0x10000000000000000) by (nonlinear_arith)
            requires
                x1 < 0x100000000,
                w3 < 0x100000000,
        ;
    }
    let w4: u64 = (x1 * w3) % 0x100000000;
    let w5: u64 = (w4 + 1376312589) % 0x100000000;
    let x: u64 = w5 % 0x80000000;
    ONE - ((x * 65536) / 0x40000000) as i64
}

} // verus!
