//! Fixed-point trigonometric kernels.
//!
//! Angles are fixed-point radians. Sine and cosine use a degree-9 Taylor
//! polynomial on a folded quarter wave; the arc tangent uses a quadratic
//! approximation on the unit interval with octant reduction; the arc cosine
//! is derived from the integer square root and the arc tangent. Each kernel's
//! result is pinned exactly by a spec function that mirrors its arithmetic.

use vstd::prelude::*;
use crate::fixed::{Fixed, abs_i, divt, spec_abs, spec_plus, spec_minus, spec_neg, spec_times, spec_divide};

verus! {

/// One half turn (pi radians) in raw 1/65536 units.
pub const PI_RAW: i64 = 205887;

/// One full turn (two pi radians) in raw units.
pub const TWO_PI_RAW: i64 = 411774;

/// A quarter turn (pi/2 radians) in raw units.
pub const HALF_PI_RAW: i64 = 102943;

/// An eighth turn (pi/4 radians) in raw units.
pub const QUARTER_PI_RAW: i64 = 51471;

/// The arc-tangent correction coefficient 0.273 in raw units.
pub const ATAN_K_RAW: i64 = 17891;

/// The unique nonnegative integer square root: r * r <= n < (r + 1) * (r + 1).
pub open spec fn is_isqrt(r: int, n: int) -> bool {
    r >= 0 && r * r <= n && n < (r + 1) * (r + 1)
}

/// The integer square root of a nonnegative integer.
pub open spec fn spec_isqrt(n: int) -> int {
    choose|r: int| is_isqrt(r, n)
}

pub proof fn lemma_isqrt_unique(a: int, b: int, n: int)
    requires
        is_isqrt(a, n),
        is_isqrt(b, n),
    ensures
        a == b,
{
    assert(a == b) by (nonlinear_arith)
        requires
            a >= 0 && a * a <= n && n < (a + 1) * (a + 1),
            b >= 0 && b * b <= n && n < (b + 1) * (b + 1),
    ;
}

/// Binary-search integer square root.
pub fn isqrt_u128(n: u128) -> (r: u64)
    ensures
        is_isqrt(r as int, n as int),
        r as int == spec_isqrt(n as int),
{
    let mut lo: u128 = 0;
    let mut hi: u128 = 0x1_0000_0000_0000_0000;
    proof {
        assert((hi as int) * (hi as int) > n as int) by (nonlinear_arith)
            requires
                hi == 0x1_0000_0000_0000_0000u128,
                n <= u128::MAX,
        ;
    }
    while hi - lo > 1
        invariant
            lo < hi,
            hi <= 0x1_0000_0000_0000_0000u128,
            lo as int * lo as int <= n as int,
            (n as int) < (hi as int) * (hi as int),
        decreases hi - lo,
    {
        let mid: u128 = lo + (hi - lo) / 2;
        proof {
            assert((mid as int) * (mid as int) < 0x1_0000_0000_0000_0000_0000_0000_0000_0000)
                by (nonlinear_arith)
                requires
                    mid < 0x1_0000_0000_0000_0000u128,
            ;
        }
        if mid * mid <= n {
            lo = mid;
        } else {
            hi = mid;
        }
    }
    proof {
        assert(hi == lo + 1);
        assert(is_isqrt(lo as int, n as int));
        lemma_isqrt_unique(lo as int, spec_isqrt(n as int), n as int);
    }
    lo as u64
}

/// Reduction of a raw angle into [0, TWO_PI_RAW).
pub open spec fn spec_reduce(x: int) -> int {
    let m = abs_i(x) % 411774;
    if x >= 0 {
        m
    } else if m == 0 {
        0
    } else {
        411774 - m
    }
}

/// The folded quarter-wave sine polynomial on [0, HALF_PI_RAW], clamped
/// into [0, 1] so that the sine never exceeds one in magnitude.
pub open spec fn spec_sin_q(s: int) -> int {
    let t2 = spec_times(s, s);
    let t3 = spec_times(t2, s);
    let t5 = spec_times(t3, t2);
    let t7 = spec_times(t5, t2);
    let t9 = spec_times(t7, t2);
    let p = spec_plus(
        spec_minus(spec_plus(spec_minus(s, divt(t3, 6)), divt(t5, 120)), divt(t7, 5040)),
        divt(t9, 362880),
    );
    if p > 65536 {
        65536int
    } else if p < 0 {
        0int
    } else {
        p
    }
}

/// Fixed-point sine of a raw fixed-point radian angle.
pub open spec fn spec_sin(x: int) -> int {
    let r = spec_reduce(x);
    let neg = r >= 205887;
    let h = if neg {
        r - 205887
    } else {
        r
    };
    let s = if h > 102943 {
        205887 - h
    } else {
        h
    };
    let v = spec_sin_q(s);
    if neg {
        spec_neg(v)
    } else {
        v
    }
}

/// Fixed-point cosine of a raw fixed-point radian angle.
pub open spec fn spec_cos(x: int) -> int {
    spec_sin(spec_plus(x, 102943))
}

/// The arc-tangent approximation z * (pi/4 + 0.273 * (1 - z)) on [0, 1].
pub open spec fn spec_atan_unit(z: int) -> int {
    spec_times(z, spec_plus(51471, spec_times(17891, spec_minus(65536, z))))
}

/// Fixed-point four-quadrant arc tangent, in (-pi, pi] raw radians.
pub open spec fn spec_atan2(y: int, x: int) -> int {
    if x == 0 && y == 0 {
        0
    } else {
        let ay = spec_abs(y);
        let ax = spec_abs(x);
        let base = if ay <= ax {
            spec_atan_unit(spec_divide(ay, ax))
        } else {
            spec_minus(102943, spec_atan_unit(spec_divide(ax, ay)))
        };
        let th = if x >= 0 {
            base
        } else {
            spec_minus(205887, base)
        };
        if y < 0 {
            spec_neg(th)
        } else {
            th
        }
    }
}

/// Fixed-point square root of a nonnegative fixed-point number.
pub open spec fn spec_sqrt(v: int) -> int {
    spec_isqrt(v * 65536)
}

/// Fixed-point arc cosine of a cosine value in [-1, 1], in [0, pi] raw radians.
pub open spec fn spec_acos(c: int) -> int {
    let t = spec_minus(65536, spec_times(c, c));
    spec_atan2(spec_sqrt(t), c)
}

/// Reduces a fixed-point radian angle into [0, TWO_PI_RAW) raw units.
pub fn reduce_angle(x: Fixed) -> (r: i64)
    ensures
        r == spec_reduce(x.raw as int),
        0 <= r < 411774,
{
    let neg = x.raw < 0;
    let m128: u128 = if x.raw >= 0 {
        x.raw as u128
    } else {
        (-(x.raw as i128)) as u128
    };
    let m: u128 = m128 % 411774;
    if neg {
        if m == 0 {
            0
        } else {
            411774 - (m as i64)
        }
    } else {
        m as i64
    }
}

fn sin_quarter(s: Fixed) -> (r: Fixed)
    requires
        0 <= s.raw <= 102943,
    ensures
        r.raw == spec_sin_q(s.raw as int),
        0 <= r.raw <= 65536,
{
    let t2 = s.times(s);
    let t3 = t2.times(s);
    let t5 = t3.times(t2);
    let t7 = t5.times(t2);
    let t9 = t7.times(t2);
    let p = s.minus(t3.div_by_int(6))
        .plus(t5.div_by_int(120))
        .minus(t7.div_by_int(5040))
        .plus(t9.div_by_int(362880));
    if p.raw > 65536 {
        Fixed { raw: 65536 }
    } else if p.raw < 0 {
        Fixed { raw: 0 }
    } else {
        p
    }
}

/// The sine never exceeds one in magnitude.
pub proof fn lemma_sin_bounded(x: int)
    ensures
        -65536 <= spec_sin(x) <= 65536,
{
}

/// The cosine never exceeds one in magnitude.
pub proof fn lemma_cos_bounded(x: int)
    ensures
        -65536 <= spec_cos(x) <= 65536,
{
    lemma_sin_bounded(spec_plus(x, 102943));
}

impl Fixed {
    /// The sine of this angle (fixed-point radians).
    pub fn sin(self) -> (r: Fixed)
        ensures
            r.raw == spec_sin(self.raw as int),
            -65536 <= r.raw <= 65536,
    {
        let red = reduce_angle(self);
        let neg = red >= 205887;
        let h = if neg {
            red - 205887
        } else {
            red
        };
        let s = if h > 102943 {
            205887 - h
        } else {
            h
        };
        let v = sin_quarter(Fixed { raw: s });
        if neg {
            v.neg()
        } else {
            v
        }
    }

    /// The cosine of this angle (fixed-point radians).
    pub fn cos(self) -> (r: Fixed)
        ensures
            r.raw == spec_cos(self.raw as int),
            -65536 <= r.raw <= 65536,
    {
        self.plus(Fixed { raw: 102943 }).sin()
    }

    /// The square root of this nonnegative number.
    pub fn sqrt(self) -> (r: Fixed)
        requires
            self.raw >= 0,
        ensures
            r.raw == spec_sqrt(self.raw as int),
            r.raw >= 0,
    {
        let m: u128 = (self.raw as u128) * 65536;
        let root = isqrt_u128(m);
        proof {
            assert((root as int) * (root as int) <= m as int);
            assert(root as int <= 0xffff_ffff_ffff) by (nonlinear_arith)
                requires
                    (root as int) * (root as int) <= m as int,
                    (m as int) <= 0x7fff_ffff_ffff_ffff * 65536,
                    root >= 0,
            ;
        }
        Fixed { raw: root as i64 }
    }
}

fn atan_unit(z: Fixed) -> (r: Fixed)
    ensures
        r.raw == spec_atan_unit(z.raw as int),
{
    z.times(
        Fixed { raw: QUARTER_PI_RAW }.plus(
            Fixed { raw: ATAN_K_RAW }.times(Fixed { raw: 65536 }.minus(z)),
        ),
    )
}

/// The four-quadrant arc tangent of y and x, in (-pi, pi] raw radians.
pub fn atan2_fx(y: Fixed, x: Fixed) -> (r: Fixed)
    ensures
        r.raw == spec_atan2(y.raw as int, x.raw as int),
{
    if x.raw == 0 && y.raw == 0 {
        return Fixed { raw: 0 };
    }
    let ay = y.abs();
    let ax = x.abs();
    let base = if ay.raw <= ax.raw {
        atan_unit(ay.divide(ax))
    } else {
        Fixed { raw: 102943 }.minus(atan_unit(ax.divide(ay)))
    };
    let th = if x.raw >= 0 {
        base
    } else {
        Fixed { raw: 205887 }.minus(base)
    };
    if y.raw < 0 {
        th.neg()
    } else {
        th
    }
}

/// The arc cosine of a cosine value whose magnitude is at most one,
/// in [0, pi] raw radians.
pub fn acos_fx(c: Fixed) -> (r: Fixed)
    requires
        -65536 <= c.raw <= 65536,
    ensures
        r.raw == spec_acos(c.raw as int),
{
    let sq = c.times(c);
    proof {
        assert(divt(c.raw as int * c.raw as int, 65536) <= 65536) by (nonlinear_arith)
            requires
                -65536 <= c.raw as int <= 65536,
        ;
        assert(divt(c.raw as int * c.raw as int, 65536) >= 0) by (nonlinear_arith)
            requires
                -65536 <= c.raw as int <= 65536,
        ;
    }
    let t = Fixed { raw: 65536 }.minus(sq);
    let s = t.sqrt();
    atan2_fx(s, c)
}

} // verus!
