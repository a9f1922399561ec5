//! Q47.16 fixed-point scalars.
//!
//! A [`Fixed`] stores a signed count of 1/65536 units in an `i64`. Every
//! arithmetic operation saturates at the `i64` range instead of overflowing,
//! and each operation's result is pinned exactly by a spec function over the raw
//! integer value.

use vstd::prelude::*;

verus! {

/// A fixed-point number counting 1/65536 units.
#[derive(Clone, Copy, PartialEq, Eq, Structural, Debug)]
pub struct Fixed {
    pub raw: i64,
}

/// Saturate an unbounded integer into the `i64` range.
pub open spec fn sat64(x: int) -> int {
    if x > i64::MAX as int {
        i64::MAX as int
    } else if x < i64::MIN as int {
        i64::MIN as int
    } else {
        x
    }
}

/// Absolute value of an unbounded integer.
pub open spec fn abs_i(a: int) -> int {
    if a < 0 {
        -a
    } else {
        a
    }
}

/// Division truncated toward zero (Rust's integer division), total: 0 when b == 0.
pub open spec fn divt(a: int, b: int) -> int {
    if b == 0 {
        0
    } else if (a >= 0) == (b >= 0) {
        abs_i(a) / abs_i(b)
    } else {
        -(abs_i(a) / abs_i(b))
    }
}

pub open spec fn spec_plus(a: int, b: int) -> int {
    sat64(a + b)
}

pub open spec fn spec_minus(a: int, b: int) -> int {
    sat64(a - b)
}

pub open spec fn spec_neg(a: int) -> int {
    sat64(-a)
}

pub open spec fn spec_abs(a: int) -> int {
    sat64(abs_i(a))
}

/// Fixed-point product: (a * b) / 65536, truncated toward zero, saturated.
pub open spec fn spec_times(a: int, b: int) -> int {
    sat64(divt(a * b, 65536))
}

/// Fixed-point quotient: (a * 65536) / b, truncated toward zero, saturated.
pub open spec fn spec_divide(a: int, b: int) -> int {
    sat64(divt(a * 65536, b))
}

/// The fixed-point number with the given raw value, which must lie in the
/// i64 range for the embedding to be exact.
pub open spec fn fx(v: int) -> Fixed {
    Fixed { raw: v as i64 }
}

/// Saturate an `i128` into the `i64` range.
fn clamp128(s: i128) -> (r: i64)
    ensures
        r as int == sat64(s as int),
{
    if s > i64::MAX as i128 {
        i64::MAX
    } else if s < i64::MIN as i128 {
        i64::MIN
    } else {
        s as i64
    }
}

/// Magnitude of an `i64` as an unsigned 128-bit integer.
fn abs_u128(x: i64) -> (r: u128)
    ensures
        r as int == abs_i(x as int),
{
    if x >= 0 {
        x as u128
    } else {
        (-(x as i128)) as u128
    }
}

impl Fixed {
    /// Builds the number counting `raw` 1/65536 units.
    pub fn from_raw(raw: i64) -> (r: Fixed)
        ensures
            r.raw == raw,
    {
        Fixed { raw }
    }

    /// Builds the fixed-point representation of the integer `v`.
    pub fn from_int(v: i32) -> (r: Fixed)
        ensures
            r.raw == v * 65536,
    {
        Fixed { raw: (v as i64) * 65536 }
    }

    /// Zero.
    pub fn zero() -> (r: Fixed)
        ensures
            r.raw == 0,
    {
        Fixed { raw: 0 }
    }

    /// One (65536 raw units).
    pub fn one() -> (r: Fixed)
        ensures
            r.raw == 65536,
    {
        Fixed { raw: 65536 }
    }

    /// Saturating addition.
    pub fn plus(self, o: Fixed) -> (r: Fixed)
        ensures
            r.raw == spec_plus(self.raw as int, o.raw as int),
    {
        let s: i128 = self.raw as i128 + o.raw as i128;
        Fixed { raw: clamp128(s) }
    }

    /// Saturating subtraction.
    pub fn minus(self, o: Fixed) -> (r: Fixed)
        ensures
            r.raw == spec_minus(self.raw as int, o.raw as int),
    {
        let s: i128 = self.raw as i128 - o.raw as i128;
        Fixed { raw: clamp128(s) }
    }

    /// Saturating negation.
    pub fn neg(self) -> (r: Fixed)
        ensures
            r.raw == spec_neg(self.raw as int),
    {
        let s: i128 = -(self.raw as i128);
        Fixed { raw: clamp128(s) }
    }

    /// Saturating absolute value.
    pub fn abs(self) -> (r: Fixed)
        ensures
            r.raw == spec_abs(self.raw as int),
    {
        if self.raw >= 0 {
            self
        } else {
            self.neg()
        }
    }

    /// Saturating fixed-point multiplication.
    pub fn times(self, o: Fixed) -> (r: Fixed)
        ensures
            r.raw == spec_times(self.raw as int, o.raw as int),
    {
        let a = self.raw;
        let b = o.raw;
        let neg = (a < 0) != (b < 0);
        let ma = abs_u128(a);
        let mb = abs_u128(b);
        proof {
            assert(ma <= 0x8000_0000_0000_0000u128);
            assert(mb <= 0x8000_0000_0000_0000u128);
            assert(ma as int * mb as int <= 0x8000_0000_0000_0000 * 0x8000_0000_0000_0000)
                by (nonlinear_arith)
                requires
                    ma <= 0x8000_0000_0000_0000u128,
                    mb <= 0x8000_0000_0000_0000u128,
            ;
        }
        let prod: u128 = ma * mb;
        let q: u128 = prod / 65536;
        proof {
            let ai = a as int;
            let bi = b as int;
            assert(ai * bi == if (ai >= 0) == (bi >= 0) {
                abs_i(ai) * abs_i(bi)
            } else {
                -(abs_i(ai) * abs_i(bi))
            }) by (nonlinear_arith);
            assert(q as int == abs_i(ai * bi) / 65536) by {
                assert(abs_i(ai * bi) == abs_i(ai) * abs_i(bi)) by (nonlinear_arith);
            }
        }
        if neg {
            let s: i128 = -(q as i128);
            Fixed { raw: clamp128(s) }
        } else {
            if q > i64::MAX as u128 {
                Fixed { raw: i64::MAX }
            } else {
                Fixed { raw: q as i64 }
            }
        }
    }

    /// Saturating fixed-point division; the divisor must be nonzero.
    pub fn divide(self, o: Fixed) -> (r: Fixed)
        requires
            o.raw != 0,
        ensures
            r.raw == spec_divide(self.raw as int, o.raw as int),
    {
        let a = self.raw;
        let b = o.raw;
        let neg = (a < 0) != (b < 0);
        let ma = abs_u128(a);
        let mb = abs_u128(b);
        let scaled: u128 = ma * 65536;
        let q: u128 = scaled / mb;
        proof {
            let ai = a as int;
            let bi = b as int;
            assert(abs_i(ai * 65536) == abs_i(ai) * 65536) by (nonlinear_arith);
            assert((ai * 65536 >= 0) == (ai >= 0)) by (nonlinear_arith);
        }
        if neg {
            let s: i128 = -(q as i128);
            Fixed { raw: clamp128(s) }
        } else {
            if q > i64::MAX as u128 {
                Fixed { raw: i64::MAX }
            } else {
                Fixed { raw: q as i64 }
            }
        }
    }

    /// Division of the raw count by a positive integer, truncated toward zero.
    pub fn div_by_int(self, k: i64) -> (r: Fixed)
        requires
            k > 0,
        ensures
            r.raw == divt(self.raw as int, k as int),
    {
        let m = abs_u128(self.raw);
        let q: u128 = m / (k as u128);
        if self.raw >= 0 {
            Fixed { raw: q as i64 }
        } else {
            Fixed { raw: (-(q as i128)) as i64 }
        }
    }
}

} // verus!
