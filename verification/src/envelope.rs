//! Envelope evaluators: pure functions from elapsed time to a gain.
//!
//! [`Exponential`] interpolates exponentially from `ONE` at time zero to a
//! target value at its end time; [`Path`] interpolates linearly along a
//! sequence of breakpoints. Both are evaluated on the fixed-point grid and
//! their results are pinned exactly by their contracts.

use crate::fixed::{
    div_trunc, lemma_sqrt_floor_bounds, mul_cap, mul_fix_cap, sqrt_fix, sqrt_fix_spec, FIX_MAX,
    ONE,
};
use crate::{ParamError, TimedSignal};
use vstd::arithmetic::div_mod::{lemma_multiply_divide_le, lemma_multiply_divide_lt};
use vstd::prelude::*;

verus! {

/// An exponential envelope: gain `ONE` at time 0, gain `value` at
/// `end_time` and beyond, exponential interpolation in between.
pub struct Exponential {
    /// The target gain, reached at `end_time`; strictly positive.
    pub value: i64,
    /// The time at which the target is reached; strictly positive seconds.
    pub end_time: i64,
}

/// The result of the square-root chain: starting from accumulator `r` and
/// chain value `s`, one fixed-point square root is taken per remaining
/// step, and `r` is multiplied by it wherever the corresponding binary
/// digit of the fraction `q` (16 digits, most significant first) is set.
/// After all 16 steps `r` has been raised from `ONE` by `s^(q/2^16)`, up
/// to the truncation each fixed-point operation performs.
pub open spec fn pow_steps(r: int, s: int, q: u32, k: u32) -> int
    decreases k,
{
    if k == 0 {
        r
    } else {
        let s2 = sqrt_fix_spec(s);
        let r2 = if (q >> (k - 1) as u32) & 1 == 1 {
            mul_fix_cap(r, s2)
        } else {
            r
        };
        pow_steps(r2, s2, q, (k - 1) as u32)
    }
}

/// With no digit set the accumulator is never multiplied: the chain
/// returns it unchanged.
pub proof fn lemma_pow_steps_zero(r: int, s: int, k: u32)
    ensures
        pow_steps(r, s, 0u32, k) == r,
    decreases k,
{
    if k > 0 {
        let sh: u32 = (k - 1) as u32;
        assert((0u32 >> sh) & 1 != 1) by (bit_vector);
        lemma_pow_steps_zero(r, sqrt_fix_spec(s), (k - 1) as u32);
    }
}

/// The square-root chain stays within `[0, ONE]` when it starts there.
pub proof fn lemma_pow_steps_bounded(r: int, s: int, q: u32, k: u32)
    requires
        0 <= r <= 65536,
        0 <= s <= 65536,
    ensures
        0 <= pow_steps(r, s, q, k) <= 65536,
    decreases k,
{
    if k > 0 {
        let s2 = sqrt_fix_spec(s);
        lemma_sqrt_floor_bounds((s * 65536) as nat);
        assert(s2 <= 65536) by (nonlinear_arith)
            requires
                s2 >= 0,
                s2 * s2 <= s * 65536,
                s <= 65536,
        ;
        let r2 = if (q >> (k - 1) as u32) & 1 == 1 {
            mul_fix_cap(r, s2)
        } else {
            r
        };
        assert(0 <= r * s2 <= 65536 * 65536) by (nonlinear_arith)
            requires
                0 <= r <= 65536,
                0 <= s2 <= 65536,
        ;
        assert(0 <= (r * s2) / 65536 <= 65536) by (nonlinear_arith)
            requires
                0 <= r * s2 <= 65536 * 65536,
        ;
        lemma_pow_steps_bounded(r2, s2, q, (k - 1) as u32);
    }
}

/// Law: a decaying envelope — one whose target gain is at most `ONE` —
/// never rises above its starting gain: its value stays within
/// `[0, ONE]` at every time.
pub proof fn lemma_decay_never_above_start(env: Exponential, t: int)
    requires
        env.wf(),
        env.value <= 65536,
    ensures
        0 <= exp_get_spec(env.value as int, env.end_time as int, t) <= 65536,
{
    if t < env.end_time {
        lemma_pow_steps_bounded(
            65536,
            env.value as int,
            frac16(t, env.end_time as int),
            16,
        );
    }
}

/// The fraction `t / e` as 16 binary digits (truncated), for `0 <= t < e`.
pub open spec fn frac16(t: int, e: int) -> u32 {
    ((t * 65536) / e) as u32
}

/// What `Exponential::get` returns: the target itself from `end_time` on,
/// and before that the square-root chain evaluation of
/// `value^(t/end_time)` on the fixed-point grid.
pub open spec fn exp_get_spec(value: int, end_time: int, t: int) -> int {
    if t >= end_time {
        value
    } else {
        pow_steps(65536, value, frac16(t, end_time), 16)
    }
}

impl Exponential {
    /// The envelope's parameters are strictly positive and in range.
    pub open spec fn wf(self) -> bool {
        &&& 1 <= self.value <= FIX_MAX
        &&& 1 <= self.end_time <= FIX_MAX
    }

    /// Makes an exponential envelope running from gain `ONE` at time 0 to
    /// gain `value` at time `end_time`. A target or end time that is not
    /// strictly positive (or beyond the engine's range) is rejected.
    pub fn new(value: i64, end_time: i64) -> (r: Result<Exponential, ParamError>)
        ensures
            r is Ok <==> (1 <= value <= FIX_MAX && 1 <= end_time <= FIX_MAX),
            r is Ok ==> r->Ok_0 == (Exponential { value, end_time }),
            r is Ok ==> r->Ok_0.wf(),
    {
        if value >= 1 && value <= FIX_MAX && end_time >= 1 && end_time <= FIX_MAX {
            Ok(Exponential { value, end_time })
        } else {
            Err(ParamError::OutOfRange)
        }
    }

    /// The gain at elapsed time `t`: exactly `ONE` at `t == 0`, exactly the
    /// target from `end_time` on, and the fixed-point exponential
    /// interpolation in between.
    pub fn get(&self, t: i64) -> (r: i64)
        requires
            self.wf(),
            t >= 0,
        ensures
            r as int == exp_get_spec(self.value as int, self.end_time as int, t as int),
            t == 0 ==> r == ONE,
            t >= self.end_time ==> r == self.value,
            0 <= r <= FIX_MAX,
    {
        if t >= self.end_time {
            return self.value;
        }
        let q: u32 = (((t as u128) * 65536) / (self.end_time as u128)) as u32;
        proof {
            lemma_multiply_divide_lt(t as int * 65536, self.end_time as int, 65536);
        }
        let ghost q0: u32 = q;
        let mut r: u64 = 65536;
        let mut s: u64 = self.value as u64;
        let mut k: u32 = 16;
        while k > 0
            invariant
                r <= FIX_MAX,
                s <= FIX_MAX,
                k <= 16,
                q == q0,
                pow_steps(r as int, s as int, q0, k) == pow_steps(
                    65536,
                    self.value as int,
                    q0,
                    16,
                ),
            decreases k,
        {
            s = sqrt_fix(s);
            if (q >> (k - 1)) & 1 == 1 {
                r = mul_cap(r, s);
            }
            k = k - 1;
        }
        proof {
            if t == 0 {
                lemma_pow_steps_zero(65536, self.value as int, 16);
            }
        }
        r as i64
    }

    /// The time at which the envelope reaches its target.
    pub fn duration(&self) -> (d: i64)
        ensures
            d == self.end_time,
    {
        self.end_time
    }
}

/// All breakpoint coordinates lie in the engine's working range.
pub open spec fn coords_in_range(s: Seq<(i64, i64)>) -> bool {
    forall|i: int|
        0 <= i < s.len() ==> -FIX_MAX <= (#[trigger] s[i]).0 <= FIX_MAX && -FIX_MAX <= s[i].1
            <= FIX_MAX
}

/// Breakpoint times increase strictly from each point to the next.
pub open spec fn times_increasing(s: Seq<(i64, i64)>) -> bool {
    forall|i: int| 0 <= i < s.len() - 1 ==> (#[trigger] s[i]).0 < s[i + 1].0
}

/// Linear interpolation between breakpoints `(t0, v0)` and `(t1, v1)` at
/// time `t`, the quotient truncated toward zero.
pub open spec fn interp_spec(t0: int, v0: int, t1: int, v1: int, t: int) -> int {
    v0 + div_trunc((v1 - v0) * (t - t0), t1 - t0)
}

/// The value of the breakpoint list from its second point on: the scan
/// assumes `t` lies past the first point's time. It interpolates within
/// the first bracketing pair and holds the last value past the end.
pub open spec fn scan_spec(s: Seq<(i64, i64)>, t: int) -> int
    decreases s.len(),
{
    if s.len() == 0 {
        0
    } else if s.len() == 1 {
        s[0].1 as int
    } else if t <= s[1].0 {
        interp_spec(s[0].0 as int, s[0].1 as int, s[1].0 as int, s[1].1 as int, t)
    } else {
        scan_spec(s.drop_first(), t)
    }
}

/// What `Path::get` returns: 0 for an empty path, the first value at or
/// before the first time, the last value past the last time, and linear
/// interpolation between the bracketing pair otherwise.
pub open spec fn path_at(s: Seq<(i64, i64)>, t: int) -> int {
    if s.len() == 0 {
        0
    } else if t <= s[0].0 {
        s[0].1 as int
    } else {
        scan_spec(s, t)
    }
}

/// A piecewise-linear envelope over `(time, value)` breakpoints with
/// strictly increasing times.
pub struct Path {
    /// The breakpoints, ordered by strictly increasing time.
    pub points: Vec<(i64, i64)>,
}

/// Interpolates between the two breakpoints bracketing `t`; the result
/// never leaves the closed interval between the two breakpoint values.
fn interp(p0: (i64, i64), p1: (i64, i64), t: i64) -> (r: i64)
    requires
        -FIX_MAX <= p0.0 <= FIX_MAX,
        -FIX_MAX <= p0.1 <= FIX_MAX,
        -FIX_MAX <= p1.0 <= FIX_MAX,
        -FIX_MAX <= p1.1 <= FIX_MAX,
        p0.0 < p1.0,
        p0.0 <= t <= p1.0,
    ensures
        r as int == interp_spec(p0.0 as int, p0.1 as int, p1.0 as int, p1.1 as int, t as int),
        p0.1 <= p1.1 ==> p0.1 <= r <= p1.1,
        p0.1 > p1.1 ==> p1.1 <= r <= p0.1,
{
    let dt: u64 = (t - p0.0) as u64;
    let dd: u64 = (p1.0 - p0.0) as u64;
    if p1.1 >= p0.1 {
        let dv: u64 = (p1.1 - p0.1) as u64;
        proof {
            assert((dv as int) * (dt as int) < 0x100000000000000000000000000000000)
                by (nonlinear_arith)
                requires
                    dv <= 0x1000000000000,
                    dt <= 0x1000000000000,
            ;
        }
        let num: u128 = (dv as u128) * (dt as u128);
        let q: u128 = num / (dd as u128);
        proof {
            assert(num <= dd as int * dv as int) by (nonlinear_arith)
                requires
                    num == dv as int * dt as int,
                    dt <= dd,
                    0 <= dv,
            ;
            lemma_multiply_divide_le(num as int, dd as int, dv as int);
        }
        p0.1 + (q as i64)
    } else {
        let dv: u64 = (p0.1 - p1.1) as u64;
        proof {
            assert((dv as int) * (dt as int) < 0x100000000000000000000000000000000)
                by (nonlinear_arith)
                requires
                    dv <= 0x1000000000000,
                    dt <= 0x1000000000000,
            ;
        }
        let num: u128 = (dv as u128) * (dt as u128);
        let q: u128 = num / (dd as u128);
        proof {
            assert(num <= dd as int * dv as int) by (nonlinear_arith)
                requires
                    num == dv as int * dt as int,
                    dt <= dd,
                    0 <= dv,
            ;
            lemma_multiply_divide_le(num as int, dd as int, dv as int);
            assert((p1.1 as int - p0.1 as int) * (t as int - p0.0 as int) == -(num as int))
                by (nonlinear_arith)
                requires
                    num == dv as int * dt as int,
                    dv as int == p0.1 as int - p1.1 as int,
                    dt as int == t as int - p0.0 as int,
            ;
        }
        p0.1 - (q as i64)
    }
}

impl Path {
    /// The breakpoint list is ordered and within the engine's range.
    pub open spec fn wf(self) -> bool {
        &&& times_increasing(self.points@)
        &&& coords_in_range(self.points@)
    }

    /// Makes a piecewise-linear envelope through `points`.
    pub fn new(points: Vec<(i64, i64)>) -> (p: Path)
        requires
            times_increasing(points@),
            coords_in_range(points@),
        ensures
            p.points@ == points@,
            p.wf(),
    {
        Path { points }
    }

    /// The value at time `t`: the first breakpoint's value at or before
    /// the first time, the last breakpoint's value past the last time,
    /// linear interpolation between the bracketing pair in between, and 0
    /// for an empty path.
    pub fn get(&self, t: i64) -> (r: i64)
        requires
            self.wf(),
        ensures
            r as int == path_at(self.points@, t as int),
            -FIX_MAX <= r <= FIX_MAX,
    {
        let n: usize = self.points.len();
        if n == 0 {
            return 0;
        }
        let first: (i64, i64) = self.points[0];
        if t <= first.0 {
            return first.1;
        }
        let mut i: usize = 0;
        proof {
            assert(self.points@.skip(0) =~= self.points@);
        }
        while i + 1 < n
            invariant
                self.wf(),
                n == self.points@.len(),
                i < n,
                t > self.points@[i as int].0,
                t > self.points@[0].0,
                scan_spec(self.points@.skip(i as int), t as int) == path_at(
                    self.points@,
                    t as int,
                ),
            decreases n - i,
        {
            let nxt: (i64, i64) = self.points[i + 1];
            if t <= nxt.0 {
                let cur: (i64, i64) = self.points[i];
                let r: i64 = interp(cur, nxt, t);
                return r;
            }
            proof {
                assert(self.points@.skip(i as int).drop_first() =~= self.points@.skip(
                    i as int + 1,
                ));
            }
            i = i + 1;
        }
        self.points[i].1
    }

    /// The last breakpoint's time, or 0 for an empty path.
    pub fn duration(&self) -> (d: i64)
        ensures
            self.points@.len() == 0 ==> d == 0,
            self.points@.len() > 0 ==> d == self.points@[self.points@.len() - 1].0,
    {
        let n: usize = self.points.len();
        if n == 0 {
            0
        } else {
            self.points[n - 1].0
        }
    }
}

/// Either envelope shape, so that a voice can carry one or the other.
pub enum Envelope {
    /// An exponential envelope.
    Exp(Exponential),
    /// A piecewise-linear envelope.
    Points(Path),
}

/// What an envelope evaluates to at elapsed time `t`.
pub open spec fn env_at(e: Envelope, t: int) -> int {
    match e {
        Envelope::Exp(x) => exp_get_spec(x.value as int, x.end_time as int, t),
        Envelope::Points(p) => path_at(p.points@, t),
    }
}

impl Envelope {
    /// The carried envelope is well formed.
    pub open spec fn wf(self) -> bool {
        match self {
            Envelope::Exp(x) => x.wf(),
            Envelope::Points(p) => p.wf(),
        }
    }

    /// The gain at elapsed time `t`.
    pub fn get(&self, t: i64) -> (r: i64)
        requires
            self.wf(),
            t >= 0,
        ensures
            r as int == env_at(*self, t as int),
            -FIX_MAX <= r <= FIX_MAX,
    {
        match self {
            Envelope::Exp(x) => x.get(t),
            Envelope::Points(p) => p.get(t),
        }
    }
}

impl TimedSignal for Exponential {
    open spec fn valid(&self) -> bool {
        self.wf()
    }

    open spec fn value_at(&self, t: int) -> int {
        exp_get_spec(self.value as int, self.end_time as int, t)
    }

    fn at(&self, t: i64) -> (v: i64) {
        self.get(t)
    }
}

impl TimedSignal for Path {
    open spec fn valid(&self) -> bool {
        self.wf()
    }

    open spec fn value_at(&self, t: int) -> int {
        path_at(self.points@, t)
    }

    fn at(&self, t: i64) -> (v: i64) {
        self.get(t)
    }
}

} // verus!
