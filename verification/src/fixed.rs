//! The fixed-point number base of the engine.
//!
//! Amplitudes, seconds, frequencies and phases are all Q47.16 fixed-point
//! values held in 64-bit integers: the integer `x` stands for the real
//! number `x / ONE`. The helpers here give the few arithmetic operations
//! the generators need, each pinned to an exact integer specification.

use vstd::arithmetic::div_mod::{
    lemma_div_is_ordered, lemma_div_pos_is_pos, lemma_fundamental_div_mod,
    lemma_fundamental_div_mod_converse, lemma_multiply_divide_le,
};
use vstd::prelude::*;

verus! {

/// The unit: one full amplitude, one second, one turn of phase.
pub const ONE: i64 = 65536;

/// Half of the unit.
pub const HALF: i64 = 32768;

/// Largest magnitude any fixed-point quantity of the engine may reach
/// (2^47 - 1); results that would pass it are clamped to it.
pub const FIX_MAX: i64 = 0x7fff_ffff_ffff;

/// The integer clamped into the range of `i64`.
pub open spec fn sat_i64(x: int) -> int {
    if x > i64::MAX as int {
        i64::MAX as int
    } else if x < i64::MIN as int {
        i64::MIN as int
    } else {
        x
    }
}

/// The integer clamped into the engine's working range `[-FIX_MAX, FIX_MAX]`.
pub open spec fn clamp_fix(x: int) -> int {
    if x > FIX_MAX as int {
        FIX_MAX as int
    } else if x < -(FIX_MAX as int) {
        -(FIX_MAX as int)
    } else {
        x
    }
}

/// Division truncated toward zero (what Rust's `/` computes on machine
/// integers), for a positive divisor.
pub open spec fn div_trunc(a: int, b: int) -> int {
    if a >= 0 {
        a / b
    } else {
        -((-a) / b)
    }
}

/// The fixed-point product `a * b / ONE`, truncated toward zero.
pub open spec fn scale_spec(a: int, b: int) -> int {
    div_trunc(a * b, ONE as int)
}

/// Magnitude of an `i64`, as a `u128`.
fn abs_u128(a: i64) -> (r: u128)
    ensures
        a >= 0 ==> r == a as int,
        a < 0 ==> r == -(a as int),
{
    if a >= 0 {
        a as u128
    } else {
        (-(a as i128)) as u128
    }
}

/// An `i128` saturated into the range of `i64`.
pub fn sat_from_wide(x: i128) -> (r: i64)
    ensures
        r as int == sat_i64(x as int),
{
    if x > i64::MAX as i128 {
        i64::MAX
    } else if x < i64::MIN as i128 {
        i64::MIN
    } else {
        x as i64
    }
}

/// An `i128` clamped into the engine's working range.
pub fn clamp_fix_wide(x: i128) -> (r: i64)
    ensures
        r as int == clamp_fix(x as int),
{
    if x > FIX_MAX as i128 {
        FIX_MAX
    } else if x < -(FIX_MAX as i128) {
        -FIX_MAX
    } else {
        x as i64
    }
}

/// The fixed-point product of two `i64` values, saturated into `i64`.
pub fn scale(a: i64, b: i64) -> (r: i64)
    ensures
        r as int == sat_i64(scale_spec(a as int, b as int)),
{
    let neg: bool = (a < 0) != (b < 0);
    let ma: u128 = abs_u128(a);
    let mb: u128 = abs_u128(b);
    proof {
        let p: int = a as int * b as int;
        assert(ma * mb < 0x100000000000000000000000000000000) by (nonlinear_arith)
            requires
                ma <= 0x8000000000000000,
                mb <= 0x8000000000000000,
        ;
        assert((p >= 0 ==> ma * mb == p) && (p < 0 ==> ma * mb == -p)) by (nonlinear_arith)
            requires
                p == a as int * b as int,
                ma == (if a >= 0 { a as int } else { -(a as int) }),
                mb == (if b >= 0 { b as int } else { -(b as int) }),
        ;
        assert((p > 0 ==> !neg) && (p < 0 ==> neg)) by (nonlinear_arith)
            requires
                p == a as int * b as int,
                neg == ((a < 0) != (b < 0)),
        ;
    }
    let m: u128 = ma * mb;
    let q: u128 = m / 65536;
    if neg {
        if q >= 9223372036854775808u128 {
            i64::MIN
        } else {
            -(q as i64)
        }
    } else {
        if q > i64::MAX as u128 {
            i64::MAX
        } else {
            q as i64
        }
    }
}

/// The fixed-point product of two `i64` values, exact in an `i128`.
pub fn scale_wide(a: i64, b: i64) -> (r: i128)
    ensures
        r as int == scale_spec(a as int, b as int),
{
    let neg: bool = (a < 0) != (b < 0);
    let ma: u128 = abs_u128(a);
    let mb: u128 = abs_u128(b);
    proof {
        let p: int = a as int * b as int;
        assert(ma * mb <= 0x40000000000000000000000000000000) by (nonlinear_arith)
            requires
                ma <= 0x8000000000000000,
                mb <= 0x8000000000000000,
        ;
        assert((p >= 0 ==> ma * mb == p) && (p < 0 ==> ma * mb == -p)) by (nonlinear_arith)
            requires
                p == a as int * b as int,
                ma == (if a >= 0 { a as int } else { -(a as int) }),
                mb == (if b >= 0 { b as int } else { -(b as int) }),
        ;
        assert((p > 0 ==> !neg) && (p < 0 ==> neg)) by (nonlinear_arith)
            requires
                p == a as int * b as int,
                neg == ((a < 0) != (b < 0)),
        ;
    }
    let m: u128 = ma * mb;
    let q: u128 = m / 65536;
    if neg {
        -(q as i128)
    } else {
        q as i128
    }
}

/// A coefficient between 0 and `ONE` scales a value toward zero: the
/// result of `scale_spec` stays between 0 and the value.
pub proof fn lemma_scale_bounds(alpha: int, d: int)
    requires
        0 <= alpha <= 65536,
    ensures
        d >= 0 ==> 0 <= scale_spec(alpha, d) <= d,
        d < 0 ==> d <= scale_spec(alpha, d) <= 0,
{
    if d >= 0 {
        assert(0 <= alpha * d && alpha * d <= 65536 * d) by (nonlinear_arith)
            requires
                0 <= alpha <= 65536,
                d >= 0,
        ;
        lemma_div_pos_is_pos(alpha * d, 65536);
        lemma_multiply_divide_le(alpha * d, 65536, d);
    } else {
        let m = -d;
        assert(alpha * d <= 0 && -(alpha * d) == alpha * m && alpha * m <= 65536 * m)
            by (nonlinear_arith)
            requires
                0 <= alpha <= 65536,
                d < 0,
                m == -d,
        ;
        lemma_div_pos_is_pos(alpha * m, 65536);
        lemma_multiply_divide_le(alpha * m, 65536, m);
    }
}

/// The magnitude of a fixed-point product is bounded by the product of the
/// factors' magnitude bounds.
pub proof fn lemma_scale_magnitude(a: int, b: int, ma: int, mb: int)
    requires
        -ma <= a <= ma,
        -mb <= b <= mb,
    ensures
        -((ma * mb) / 65536) <= scale_spec(a, b) <= (ma * mb) / 65536,
{
    let p = a * b;
    assert((p >= 0 ==> p <= ma * mb) && (p < 0 ==> -p <= ma * mb)) by (nonlinear_arith)
        requires
            p == a * b,
            -ma <= a <= ma,
            -mb <= b <= mb,
    ;
    lemma_div_pos_is_pos(ma * mb, 65536);
    if p >= 0 {
        lemma_div_pos_is_pos(p, 65536);
        lemma_div_is_ordered(p, ma * mb, 65536);
    } else {
        lemma_div_pos_is_pos(-p, 65536);
        lemma_div_is_ordered(-p, ma * mb, 65536);
    }
}

/// Floor of `t / ONE`: the greatest integer at or below the fixed-point
/// value `t`, matching the Euclidean `/` of specifications.
pub fn floor_div_one(t: i64) -> (q: i64)
    ensures
        q as int == t as int / (ONE as int),
{
    if t >= 0 {
        ((t as u64) / 65536u64) as i64
    } else {
        let m: u128 = (-(t as i128)) as u128;
        let q0: u128 = m / 65536;
        let r0: u128 = m % 65536;
        proof {
            lemma_fundamental_div_mod(m as int, 65536);
            if r0 == 0 {
                lemma_fundamental_div_mod_converse(t as int, 65536, -(q0 as int), 0);
            } else {
                lemma_fundamental_div_mod_converse(
                    t as int,
                    65536,
                    -(q0 as int) - 1,
                    65536 - r0 as int,
                );
            }
        }
        if r0 == 0 {
            -(q0 as i64)
        } else {
            -(q0 as i64) - 1
        }
    }
}

/// The Euclidean remainder of `t` by `ONE`: always in `[0, ONE)`.
pub fn rem_euclid_one(t: i64) -> (m: i64)
    ensures
        m as int == t as int % (ONE as int),
        0 <= m < ONE,
{
    let q: i64 = floor_div_one(t);
    proof {
        lemma_fundamental_div_mod(t as int, 65536);
    }
    let m_w: i128 = t as i128 - (q as i128) * 65536;
    m_w as i64
}

/// The greatest integer whose square is at most `x`.
pub open spec fn sqrt_floor(x: nat) -> nat
    decreases x,
{
    if x == 0 {
        0
    } else {
        let p = sqrt_floor((x - 1) as nat);
        if (p + 1) * (p + 1) <= x {
            p + 1
        } else {
            p
        }
    }
}

/// `sqrt_floor(x)` squares to at most `x`, and its successor squares past `x`.
pub proof fn lemma_sqrt_floor_bounds(x: nat)
    ensures
        sqrt_floor(x) * sqrt_floor(x) <= x,
        (sqrt_floor(x) + 1) * (sqrt_floor(x) + 1) > x,
    decreases x,
{
    let s = sqrt_floor(x);
    if x == 0 {
        assert(s * s <= x && (s + 1) * (s + 1) > x) by (nonlinear_arith)
            requires
                s == 0,
                x == 0,
        ;
    } else {
        lemma_sqrt_floor_bounds((x - 1) as nat);
        let p = sqrt_floor((x - 1) as nat);
        if (p + 1) * (p + 1) <= x {
            assert(s == p + 1);
            assert(x == (p + 1) * (p + 1));
            assert(s * s <= x && (s + 1) * (s + 1) > x) by (nonlinear_arith)
                requires
                    s == p + 1,
                    x == (p + 1) * (p + 1),
            ;
        } else {
            assert(s == p);
            assert(p * p <= x - 1);
            assert((p + 1) * (p + 1) > x);
        }
    }
}

/// Any integer bracketing `x` the way `sqrt_floor(x)` does is `sqrt_floor(x)`.
pub proof fn lemma_sqrt_floor_unique(x: nat, r: nat)
    requires
        r * r <= x,
        (r + 1) * (r + 1) > x,
    ensures
        r == sqrt_floor(x),
{
    lemma_sqrt_floor_bounds(x);
    let s = sqrt_floor(x);
    if r < s {
        assert((r + 1) * (r + 1) <= s * s) by (nonlinear_arith)
            requires
                r + 1 <= s,
        ;
    }
    if r > s {
        assert((s + 1) * (s + 1) <= r * r) by (nonlinear_arith)
            requires
                s + 1 <= r,
        ;
    }
}

/// Integer square root by bisection.
pub fn isqrt(x: u64) -> (r: u64)
    ensures
        r as int == sqrt_floor(x as nat),
        r <= 0x100000000,
{
    let mut lo: u64 = 0;
    let mut hi: u64 = 0x100000000;
    while lo + 1 < hi
        invariant
            lo < hi <= 0x100000000,
            lo as int * lo as int <= x as int,
            hi as int * hi as int > x as int,
        decreases hi - lo,
    {
        let mid: u64 = lo + (hi - lo) / 2;
        proof {
            assert(mid as int * mid as int <= 0x10000000000000000) by (nonlinear_arith)
                requires
                    mid <= 0x100000000,
            ;
        }
        let sq: u128 = (mid as u128) * (mid as u128);
        if sq <= x as u128 {
            lo = mid;
        } else {
            hi = mid;
        }
    }
    proof {
        lemma_sqrt_floor_unique(x as nat, lo as nat);
    }
    lo
}

/// The square root of a fixed-point value, in fixed point (truncated):
/// `sqrt_fix(s) / ONE` is the greatest grid value whose square is at most
/// `s / ONE`.
pub open spec fn sqrt_fix_spec(s: int) -> int {
    sqrt_floor((s * 65536) as nat) as int
}

/// Fixed-point square root of a value in the engine's working range.
pub fn sqrt_fix(s: u64) -> (r: u64)
    requires
        s <= FIX_MAX,
    ensures
        r as int == sqrt_fix_spec(s as int),
        r <= FIX_MAX,
{
    let r: u64 = isqrt(s * 65536);
    proof {
        lemma_sqrt_floor_bounds((s * 65536) as nat);
        if r > 0xFFFFFFFF {
            assert(r as int * r as int >= 0x100000000 * 0x100000000) by (nonlinear_arith)
                requires
                    r >= 0x100000000,
            ;
        }
    }
    r
}

/// The fixed-point product `a * b / ONE` of non-negative values, capped at
/// `FIX_MAX`.
pub open spec fn mul_fix_cap(a: int, b: int) -> int {
    let q = (a * b) / 65536;
    if q > FIX_MAX as int {
        FIX_MAX as int
    } else {
        q
    }
}

/// Fixed-point product of two non-negative values, capped at `FIX_MAX`.
pub fn mul_cap(a: u64, b: u64) -> (r: u64)
    requires
        a <= FIX_MAX,
        b <= FIX_MAX,
    ensures
        r as int == mul_fix_cap(a as int, b as int),
        r <= FIX_MAX,
{
    proof {
        assert((a as int) * (b as int) < 0x100000000000000000000000000000000) by (nonlinear_arith)
            requires
                a <= 0x7fffffffffff,
                b <= 0x7fffffffffff,
        ;
    }
    let q: u128 = ((a as u128) * (b as u128)) / 65536;
    if q > FIX_MAX as u128 {
        FIX_MAX as u64
    } else {
        q as u64
    }
}

} // verus!
