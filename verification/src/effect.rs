//! Filters and effects: stateful per-sample processors.
//!
//! One-pole low/high-pass filters, a biquad band-pass, a feedback delay
//! line, and a stateless soft-clip shaper, all on fixed-point samples.
//! Each step's output is pinned exactly by its contract; where a recursion
//! could leave the engine's working range the result is clamped to
//! `[-FIX_MAX, FIX_MAX]` and the contract says so.

use crate::fixed::{
    clamp_fix, clamp_fix_wide, div_trunc, lemma_scale_bounds, lemma_scale_magnitude, scale,
    scale_spec, scale_wide, FIX_MAX, ONE,
};
use crate::oscillator::{sin, sin_spec};
use crate::ParamError;
use vstd::arithmetic::div_mod::{
    lemma_div_is_ordered, lemma_div_nonincreasing, lemma_div_pos_is_pos,
    lemma_multiply_divide_le, lemma_multiply_divide_lt, lemma_small_mod,
};
use vstd::prelude::*;

verus! {

/// `2 * pi` on the fixed-point grid (truncated).
pub const TAU_FP: i64 = 411774;

/// The one-pole smoothing coefficient for a cutoff frequency: with
/// `tau = 2*pi*cutoff`, the coefficient is `tau / (tau + sample_rate)`,
/// i.e. `dt / (rc + dt)` for `rc = 1/tau` and `dt = 1/sample_rate`.
pub open spec fn alpha_spec(sample_rate: int, cutoff: int) -> int {
    let tau = (411774 * cutoff) / 65536;
    (tau * 65536) / (tau + sample_rate * 65536)
}

/// One-pole coefficient from the sample rate and a fixed-point cutoff
/// frequency in hertz; pure, so a time-varying cutoff can recompute it
/// each sample.
pub fn alpha(sample_rate: u32, cutoff: i64) -> (a: i64)
    requires
        sample_rate >= 1,
        1 <= cutoff <= FIX_MAX,
    ensures
        a as int == alpha_spec(sample_rate as int, cutoff as int),
        0 <= a < ONE,
{
    proof {
        lemma_div_pos_is_pos(411774 * (cutoff as int), 65536);
        lemma_div_nonincreasing(411774 * (cutoff as int), 65536);
    }
    let tau: u128 = ((TAU_FP as u128) * (cutoff as u128)) / 65536;
    let denom: u128 = tau + (sample_rate as u128) * 65536;
    let a: u128 = (tau * 65536) / denom;
    proof {
        lemma_div_pos_is_pos(tau as int * 65536, denom as int);
        lemma_multiply_divide_lt(tau as int * 65536, denom as int, 65536);
    }
    a as i64
}

/// A one-pole low-pass filter: remembers its previous output.
pub struct Lpf {
    /// The output of the previous step; 0 before the first.
    pub prev_output: i64,
}

/// What one low-pass step returns: the previous output moved toward the
/// input by the fraction `alpha`.
pub open spec fn lpf_step(prev: int, alpha: int, input: int) -> int {
    prev + scale_spec(alpha, input - prev)
}

/// Makes a one-pole low-pass filter with zeroed history.
pub fn lpf() -> (f: Lpf)
    ensures
        f.prev_output == 0,
        f.wf(),
{
    Lpf { prev_output: 0 }
}

impl Lpf {
    /// The remembered output is in the engine's working range.
    pub open spec fn wf(self) -> bool {
        -FIX_MAX <= self.prev_output <= FIX_MAX
    }

    /// One step: `y[n] = y[n-1] + alpha * (x[n] - y[n-1])`. The output
    /// always lies between the previous output and the input.
    pub fn process(&mut self, alpha: i64, input: i64) -> (y: i64)
        requires
            old(self).wf(),
            0 <= alpha <= ONE,
            -FIX_MAX <= input <= FIX_MAX,
        ensures
            y as int == lpf_step(old(self).prev_output as int, alpha as int, input as int),
            final(self).prev_output == y,
            final(self).wf(),
    {
        let d: i64 = input - self.prev_output;
        proof {
            lemma_scale_bounds(alpha as int, d as int);
        }
        let step: i64 = scale(alpha, d);
        let y: i64 = self.prev_output + step;
        self.prev_output = y;
        y
    }
}

/// A one-pole high-pass filter: remembers its previous input and output.
pub struct Hpf {
    /// The input of the previous step; 0 before the first.
    pub prev_input: i64,
    /// The output of the previous step; 0 before the first.
    pub prev_output: i64,
}

/// What one high-pass step returns: `alpha * (y[n-1] + x[n] - x[n-1])`,
/// clamped into the engine's working range.
pub open spec fn hpf_step(prev_out: int, prev_in: int, alpha: int, input: int) -> int {
    clamp_fix(scale_spec(alpha, prev_out + input - prev_in))
}

/// Makes a one-pole high-pass filter with zeroed history.
pub fn hpf() -> (f: Hpf)
    ensures
        f.prev_input == 0,
        f.prev_output == 0,
        f.wf(),
{
    Hpf { prev_input: 0, prev_output: 0 }
}

impl Hpf {
    /// The remembered history is in the engine's working range.
    pub open spec fn wf(self) -> bool {
        &&& -FIX_MAX <= self.prev_input <= FIX_MAX
        &&& -FIX_MAX <= self.prev_output <= FIX_MAX
    }

    /// One step: `y[n] = alpha * (y[n-1] + x[n] - x[n-1])`, clamped.
    pub fn process(&mut self, alpha: i64, input: i64) -> (y: i64)
        requires
            old(self).wf(),
            0 <= alpha <= ONE,
            -FIX_MAX <= input <= FIX_MAX,
        ensures
            y as int == hpf_step(
                old(self).prev_output as int,
                old(self).prev_input as int,
                alpha as int,
                input as int,
            ),
            final(self).prev_input == input,
            final(self).prev_output == y,
            final(self).wf(),
    {
        let sum: i64 = self.prev_output + input - self.prev_input;
        proof {
            lemma_scale_bounds(alpha as int, sum as int);
        }
        let w: i128 = scale_wide(alpha, sum);
        let y: i64 = clamp_fix_wide(w);
        self.prev_input = input;
        self.prev_output = y;
        y
    }
}

/// What the soft clip returns for a drive `z = factor * value`: `z` is
/// clamped to three units, and the odd rational curve
/// `z * (27 + z^2) / (27 + 9 * z^2)` (in units of `ONE`) maps it smoothly
/// into `[-ONE, ONE]`, with slope one at zero and hard limit `ONE` at the
/// clamp — a fixed-point stand-in for the hyperbolic tangent.
pub open spec fn soft_clip_spec(factor: int, value: int) -> int {
    let z0 = scale_spec(factor, value);
    let z = if z0 > 196608 {
        196608int
    } else if z0 < -196608 {
        -196608int
    } else {
        z0
    };
    let m = if z >= 0 {
        z
    } else {
        -z
    };
    let r = (m * (27 * 65536 * 65536 + m * m)) / (27 * 65536 * 65536 + 9 * (m * m));
    if z >= 0 {
        r
    } else {
        -r
    }
}

/// Soft clip (smooth limiter): maps `factor * value` into `[-ONE, ONE]`,
/// odd and monotone, with unit slope near zero.
pub fn soft_clip(factor: i64, value: i64) -> (r: i64)
    ensures
        r as int == soft_clip_spec(factor as int, value as int),
        -ONE <= r <= ONE,
{
    let w: i128 = scale_wide(factor, value);
    let z: i64 = if w > 196608 {
        196608
    } else if w < -196608 {
        -196608
    } else {
        w as i64
    };
    let m: i64 = if z >= 0 {
        z
    } else {
        -z
    };
    proof {
        assert(m * m <= 38654705664) by (nonlinear_arith)
            requires
                0 <= m <= 196608,
        ;
        assert(m * (27 * 65536 * 65536 + m * m) <= 30399297484750848) by (nonlinear_arith)
            requires
                0 <= m <= 196608,
                m * m <= 38654705664,
        ;
        assert(m * (27 * 65536 * 65536 + m * m) >= 0) by (nonlinear_arith)
            requires
                0 <= m,
        ;
        assert(m * (27 * 65536 * 65536 + m * m) <= (27 * 65536 * 65536 + 9 * (m * m)) * 65536)
            by (nonlinear_arith)
            requires
                0 <= m <= 196608,
        ;
        lemma_multiply_divide_le(
            m as int * (27 * 65536 * 65536 + m as int * m as int),
            27 * 65536 * 65536 + 9 * (m as int * m as int),
            65536,
        );
        lemma_div_pos_is_pos(
            m as int * (27 * 65536 * 65536 + m as int * m as int),
            27 * 65536 * 65536 + 9 * (m as int * m as int),
        );
    }
    let mm: i64 = m * m;
    let q: i64 = ((m as u64) * (115964116992u64 + (mm as u64)) / (115964116992u64 + 9
        * (mm as u64))) as i64;
    if z >= 0 {
        q
    } else {
        -q
    }
}

/// The band-pass filter's centre frequency as a fraction of the sample
/// rate, in fixed-point turns.
pub open spec fn bpf_turns(sample_rate: int, center: int) -> int {
    center / sample_rate
}

/// The sine of the normalized angular frequency.
pub open spec fn bpf_sn(sample_rate: int, center: int) -> int {
    sin_spec(bpf_turns(sample_rate, center))
}

/// The cosine of the normalized angular frequency (the sine a quarter
/// turn further on).
pub open spec fn bpf_cs(sample_rate: int, center: int) -> int {
    sin_spec(bpf_turns(sample_rate, center) + 16384)
}

/// The band-pass bandwidth coefficient `sin(omega) / (2 * q)`.
pub open spec fn bpf_alpha(sample_rate: int, center: int, q: int) -> int {
    (bpf_sn(sample_rate, center) * 65536) / (2 * q)
}

/// The normalizing coefficient `1 + alpha` the others are divided by.
pub open spec fn bpf_a0(sample_rate: int, center: int, q: int) -> int {
    65536 + bpf_alpha(sample_rate, center, q)
}

/// A biquad band-pass filter: constant-skirt-gain coefficients fixed at
/// construction, plus two samples of input and output history.
pub struct Bpf {
    /// Feedforward coefficient on the current input.
    pub b0: i64,
    /// Feedforward coefficient on the input two steps back; always `-b0`
    /// (the coefficient on the previous input is zero).
    pub b2: i64,
    /// Feedback coefficient on the previous output.
    pub a1: i64,
    /// Feedback coefficient on the output two steps back.
    pub a2: i64,
    /// The previous input.
    pub x1: i64,
    /// The input two steps back.
    pub x2: i64,
    /// The previous output.
    pub y1: i64,
    /// The output two steps back.
    pub y2: i64,
}

/// What one band-pass step returns:
/// `b0*x[n] + b2*x[n-2] - a1*y[n-1] - a2*y[n-2]`, clamped into the
/// engine's working range.
pub open spec fn bpf_step(f: Bpf, input: int) -> int {
    clamp_fix(
        scale_spec(f.b0 as int, input) + scale_spec(f.b2 as int, f.x2 as int) - scale_spec(
            f.a1 as int,
            f.y1 as int,
        ) - scale_spec(f.a2 as int, f.y2 as int),
    )
}

/// Makes a band-pass filter at fixed-point centre frequency `center_freq`
/// (hertz, at most half the sample rate) with quality factor `q`.
pub fn bpf(sample_rate: u32, center_freq: i64, q: i64) -> (f: Bpf)
    requires
        sample_rate >= 1,
        1 <= center_freq,
        2 * center_freq <= (sample_rate as int) * 65536,
        1 <= q <= FIX_MAX,
    ensures
        f.b0 as int == (bpf_alpha(sample_rate as int, center_freq as int, q as int) * 65536)
            / bpf_a0(sample_rate as int, center_freq as int, q as int),
        f.b2 == -f.b0,
        f.a1 as int == div_trunc(
            -2 * bpf_cs(sample_rate as int, center_freq as int) * 65536,
            bpf_a0(sample_rate as int, center_freq as int, q as int),
        ),
        f.a2 as int == div_trunc(
            (65536 - bpf_alpha(sample_rate as int, center_freq as int, q as int)) * 65536,
            bpf_a0(sample_rate as int, center_freq as int, q as int),
        ),
        f.x1 == 0 && f.x2 == 0 && f.y1 == 0 && f.y2 == 0,
        f.wf(),
{
    proof {
        assert(center_freq as int <= sample_rate as int * 32768) by (nonlinear_arith)
            requires
                2 * (center_freq as int) <= (sample_rate as int) * 65536,
        ;
        lemma_multiply_divide_le(center_freq as int, sample_rate as int, 32768);
        lemma_div_pos_is_pos(center_freq as int, sample_rate as int);
    }
    let turns: i64 = ((center_freq as u64) / (sample_rate as u64)) as i64;
    let sn: i64 = sin(turns);
    let cs: i64 = sin(turns + 16384);
    proof {
        lemma_small_mod(turns as nat, 65536nat);
        assert(turns * (32768 - turns) >= 0) by (nonlinear_arith)
            requires
                0 <= turns <= 32768,
        ;
        lemma_div_pos_is_pos(16 * (turns as int * (32768 - turns as int)), 65536);
    }
    let alpha_c: i64 = (((sn as u64) * 65536) / (2 * (q as u64))) as i64;
    proof {
        lemma_div_pos_is_pos(sn as int * 65536, 2 * (q as int));
        lemma_div_nonincreasing(sn as int * 65536, 2 * (q as int));
    }
    let a0: i64 = ONE + alpha_c;
    let b0: i64 = (((alpha_c as u64) * 65536) / (a0 as u64)) as i64;
    proof {
        lemma_div_pos_is_pos(alpha_c as int * 65536, a0 as int);
        lemma_multiply_divide_lt(alpha_c as int * 65536, a0 as int, 65536);
    }
    let b2: i64 = -b0;
    let mcs: u64 = if cs >= 0 {
        cs as u64
    } else {
        (-cs) as u64
    };
    let m1: i64 = ((2 * mcs * 65536) / (a0 as u64)) as i64;
    proof {
        lemma_div_pos_is_pos(2 * (mcs as int) * 65536, a0 as int);
        lemma_multiply_divide_le(2 * (mcs as int) * 65536, a0 as int, 131072);
    }
    let a1: i64 = if cs >= 0 {
        -m1
    } else {
        m1
    };
    let diff: i64 = ONE - alpha_c;
    let mdiff: u64 = if diff >= 0 {
        diff as u64
    } else {
        (-diff) as u64
    };
    let m2: i64 = ((mdiff * 65536) / (a0 as u64)) as i64;
    proof {
        lemma_div_pos_is_pos(mdiff as int * 65536, a0 as int);
        lemma_multiply_divide_le(mdiff as int * 65536, a0 as int, 65536);
    }
    let a2: i64 = if diff >= 0 {
        m2
    } else {
        -m2
    };
    Bpf { b0, b2, a1, a2, x1: 0, x2: 0, y1: 0, y2: 0 }
}

impl Bpf {
    /// Coefficients are in the ranges construction gives them and the
    /// history is in the engine's working range.
    pub open spec fn wf(self) -> bool {
        &&& 0 <= self.b0 <= ONE
        &&& self.b2 == -self.b0
        &&& -2 * ONE <= self.a1 <= 2 * ONE
        &&& -ONE <= self.a2 <= ONE
        &&& -FIX_MAX <= self.x1 <= FIX_MAX
        &&& -FIX_MAX <= self.x2 <= FIX_MAX
        &&& -FIX_MAX <= self.y1 <= FIX_MAX
        &&& -FIX_MAX <= self.y2 <= FIX_MAX
    }

    /// One step of the band-pass recursion; the history shifts by one.
    pub fn process(&mut self, input: i64) -> (y: i64)
        requires
            old(self).wf(),
            -FIX_MAX <= input <= FIX_MAX,
        ensures
            y as int == bpf_step(*old(self), input as int),
            final(self).x1 == input,
            final(self).x2 == old(self).x1,
            final(self).y1 == y,
            final(self).y2 == old(self).y1,
            final(self).b0 == old(self).b0,
            final(self).b2 == old(self).b2,
            final(self).a1 == old(self).a1,
            final(self).a2 == old(self).a2,
            final(self).wf(),
    {
        proof {
            lemma_scale_magnitude(self.b0 as int, input as int, 65536, FIX_MAX as int);
            lemma_scale_magnitude(self.b2 as int, self.x2 as int, 65536, FIX_MAX as int);
            lemma_scale_magnitude(self.a1 as int, self.y1 as int, 131072, FIX_MAX as int);
            lemma_scale_magnitude(self.a2 as int, self.y2 as int, 65536, FIX_MAX as int);
        }
        let t0: i128 = scale_wide(self.b0, input);
        let t2: i128 = scale_wide(self.b2, self.x2);
        let u1: i128 = scale_wide(self.a1, self.y1);
        let u2: i128 = scale_wide(self.a2, self.y2);
        let y: i64 = clamp_fix_wide(t0 + t2 - u1 - u2);
        self.x2 = self.x1;
        self.x1 = input;
        self.y2 = self.y1;
        self.y1 = y;
        y
    }
}

/// A feedback delay line: a fixed-capacity circular buffer, a write
/// cursor, and a feedback gain.
pub struct Delay {
    /// The circular buffer; its length is the delay in samples.
    pub buffer: Vec<i64>,
    /// The position read and overwritten by the next step.
    pub write_index: usize,
    /// The gain applied to the delayed sample before it is mixed in.
    pub feedback: i64,
}

/// What one delay step returns: the input plus the delayed sample scaled
/// by the feedback gain, clamped into the engine's working range.
pub open spec fn delay_step(d: Delay, input: int) -> int {
    clamp_fix(
        input + scale_spec(d.feedback as int, d.buffer@[d.write_index as int] as int),
    )
}

/// Makes a delay line of `ceil(sample_rate * delay_time)` samples with the
/// given feedback gain. A delay time that is not strictly positive is
/// rejected.
pub fn delay(sample_rate: u32, delay_time: i64, feedback: i64) -> (r: Result<Delay, ParamError>)
    requires
        sample_rate >= 1,
        delay_time <= FIX_MAX,
        -FIX_MAX <= feedback <= FIX_MAX,
        (sample_rate as int) * (delay_time as int) <= 0x7fffffff0000,
    ensures
        r is Ok <==> delay_time >= 1,
        r is Ok ==> (r->Ok_0).buffer@.len() == ((sample_rate as int) * (delay_time as int)
            + 65535) / 65536,
        r is Ok ==> forall|i: int|
            0 <= i < (r->Ok_0).buffer@.len() ==> (r->Ok_0).buffer@[i] == 0,
        r is Ok ==> (r->Ok_0).write_index == 0,
        r is Ok ==> (r->Ok_0).feedback == feedback,
        r is Ok ==> (r->Ok_0).wf(),
{
    if delay_time < 1 {
        return Err(ParamError::OutOfRange);
    }
    proof {
        assert((sample_rate as int) * (delay_time as int) >= 1) by (nonlinear_arith)
            requires
                sample_rate >= 1,
                delay_time >= 1,
        ;
        lemma_div_is_ordered(
            65536,
            (sample_rate as int) * (delay_time as int) + 65535,
            65536,
        );
        lemma_div_is_ordered(
            (sample_rate as int) * (delay_time as int) + 65535,
            0x7fffffff0000int + 65535,
            65536,
        );
    }
    let prod: u64 = (sample_rate as u64) * (delay_time as u64);
    let size_u: u64 = (prod + 65535) / 65536;
    let size: usize = size_u as usize;
    let mut buffer: Vec<i64> = Vec::new();
    let mut j: usize = 0;
    while j < size
        invariant
            j <= size,
            buffer@.len() == j,
            forall|i: int| 0 <= i < j ==> buffer@[i] == 0,
        decreases size - j,
    {
        buffer.push(0);
        j = j + 1;
    }
    Ok(Delay { buffer, write_index: 0, feedback })
}

impl Delay {
    /// The buffer is non-empty, the cursor is inside it, and every held
    /// sample and the feedback gain are in the engine's working range.
    pub open spec fn wf(self) -> bool {
        &&& self.buffer@.len() >= 1
        &&& (self.write_index as int) < self.buffer@.len()
        &&& -FIX_MAX <= self.feedback <= FIX_MAX
        &&& forall|i: int|
            0 <= i < self.buffer@.len() ==> -FIX_MAX <= #[trigger] self.buffer@[i] <= FIX_MAX
    }

    /// One step: reads the delayed sample under the cursor, mixes it into
    /// the input with the feedback gain, stores the result back in its
    /// place, and advances the cursor one slot around the ring.
    pub fn process(&mut self, input: i64) -> (y: i64)
        requires
            old(self).wf(),
            -FIX_MAX <= input <= FIX_MAX,
        ensures
            y as int == delay_step(*old(self), input as int),
            final(self).buffer@ == old(self).buffer@.update(old(self).write_index as int, y),
            final(self).write_index as int == ((old(self).write_index + 1) as int) % (
            old(self).buffer@.len() as int),
            final(self).feedback == old(self).feedback,
            final(self).wf(),
    {
        let d: i64 = self.buffer[self.write_index];
        proof {
            lemma_scale_magnitude(
                self.feedback as int,
                d as int,
                FIX_MAX as int,
                FIX_MAX as int,
            );
        }
        let w: i128 = scale_wide(self.feedback, d);
        let y: i64 = clamp_fix_wide(input as i128 + w);
        self.buffer[self.write_index] = y;
        let len: usize = self.buffer.len();
        self.write_index = (self.write_index + 1) % len;
        y
    }
}

} // verus!
