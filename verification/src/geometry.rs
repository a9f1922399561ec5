//! Geometry primitives: coordinate points, rotations, polar vectors.
//!
//! A [`Rotation`] is a fixed-point radian angle; a [`Vector`] is a polar
//! offset (magnitude and direction); a [`Coordinate`] is a cartesian point.

use vstd::prelude::*;
use crate::fixed::{Fixed, fx, sat64, spec_plus, spec_minus, spec_neg, spec_times};
use crate::trig::{atan2_fx, reduce_angle, spec_atan2, spec_cos, spec_isqrt, spec_reduce, spec_sin};

verus! {

/// One radian measured in degrees, in raw 1/65536 units (about 57.29578).
pub const DEG_PER_RAD_RAW: i64 = 3754936;

/// One degree measured in radians, in raw 1/65536 units (about 0.01745).
pub const RAD_PER_DEG_RAW: i64 = 1144;

/// A two-dimensional cartesian point or offset.
#[derive(Clone, Copy, PartialEq, Eq, Structural, Debug)]
pub struct Coordinate {
    /// The x-axis component.
    pub x: Fixed,
    /// The y-axis component.
    pub y: Fixed,
}

/// A rotation in 2D space, measured in fixed-point radians.
#[derive(Clone, Copy, PartialEq, Eq, Structural, Debug)]
pub struct Rotation {
    /// The angle in fixed-point radians.
    pub radians: Fixed,
}

/// A polar 2D vector.
#[derive(Clone, Copy, PartialEq, Eq, Structural, Debug)]
pub struct Vector {
    /// The length of the vector.
    pub magnitude: Fixed,
    /// The direction the vector is heading.
    pub direction: Rotation,
}

/// Componentwise saturating sum of two points.
pub open spec fn spec_coord_plus(a: Coordinate, b: Coordinate) -> Coordinate {
    Coordinate {
        x: fx(spec_plus(a.x.raw as int, b.x.raw as int)),
        y: fx(spec_plus(a.y.raw as int, b.y.raw as int)),
    }
}

/// Componentwise saturating difference of two points.
pub open spec fn spec_coord_minus(a: Coordinate, b: Coordinate) -> Coordinate {
    Coordinate {
        x: fx(spec_minus(a.x.raw as int, b.x.raw as int)),
        y: fx(spec_minus(a.y.raw as int, b.y.raw as int)),
    }
}

/// The cartesian offset of the polar vector (len, dir).
pub open spec fn spec_polar(len: Fixed, dir: Rotation) -> Coordinate {
    Coordinate {
        x: fx(spec_times(len.raw as int, spec_cos(dir.radians.raw as int))),
        y: fx(spec_times(len.raw as int, spec_sin(dir.radians.raw as int))),
    }
}

/// The euclidean length of the offset (x, y), saturated into the i64 range.
pub open spec fn spec_magnitude(x: int, y: int) -> int {
    sat64(spec_isqrt(x * x + y * y))
}

/// The polar form of the offset from `a` to `b`.
pub open spec fn spec_vector_to(a: Coordinate, b: Coordinate) -> Vector {
    let d = spec_coord_minus(b, a);
    Vector {
        magnitude: fx(spec_magnitude(d.x.raw as int, d.y.raw as int)),
        direction: Rotation { radians: fx(spec_atan2(d.y.raw as int, d.x.raw as int)) },
    }
}

impl Coordinate {
    /// Returns a new point from the x and y values.
    pub fn new(x: Fixed, y: Fixed) -> (r: Coordinate)
        ensures
            r == (Coordinate { x, y }),
    {
        Coordinate { x, y }
    }

    /// The origin.
    pub fn zero() -> (r: Coordinate)
        ensures
            r == (Coordinate { x: Fixed { raw: 0 }, y: Fixed { raw: 0 } }),
    {
        Coordinate { x: Fixed { raw: 0 }, y: Fixed { raw: 0 } }
    }

    /// Componentwise saturating addition.
    pub fn plus(self, o: Coordinate) -> (r: Coordinate)
        ensures
            r == spec_coord_plus(self, o),
    {
        Coordinate { x: self.x.plus(o.x), y: self.y.plus(o.y) }
    }

    /// Componentwise saturating subtraction.
    pub fn minus(self, o: Coordinate) -> (r: Coordinate)
        ensures
            r == spec_coord_minus(self, o),
    {
        Coordinate { x: self.x.minus(o.x), y: self.y.minus(o.y) }
    }

    /// Returns the magnitude of this point as an offset from the origin.
    pub fn magnitude(&self) -> (r: Fixed)
        ensures
            r.raw == spec_magnitude(self.x.raw as int, self.y.raw as int),
    {
        let ax: u128 = if self.x.raw >= 0 {
            self.x.raw as u128
        } else {
            (-(self.x.raw as i128)) as u128
        };
        let ay: u128 = if self.y.raw >= 0 {
            self.y.raw as u128
        } else {
            (-(self.y.raw as i128)) as u128
        };
        proof {
            assert(ax as int * ax as int + ay as int * ay as int <= u128::MAX as int
                && ax as int * ax as int == self.x.raw as int * self.x.raw as int
                && ay as int * ay as int == self.y.raw as int * self.y.raw as int)
                by (nonlinear_arith)
                requires
                    ax <= 0x8000_0000_0000_0000u128,
                    ay <= 0x8000_0000_0000_0000u128,
                    ax as int == if self.x.raw as int >= 0 { self.x.raw as int } else { -(self.x.raw as int) },
                    ay as int == if self.y.raw as int >= 0 { self.y.raw as int } else { -(self.y.raw as int) },
            ;
        }
        let m: u128 = ax * ax + ay * ay;
        let root: u64 = crate::trig::isqrt_u128(m);
        if root > i64::MAX as u64 {
            Fixed { raw: i64::MAX }
        } else {
            Fixed { raw: root as i64 }
        }
    }

    /// Returns the direction of a line from the origin through this point.
    pub fn as_rotation(self) -> (r: Rotation)
        ensures
            r.radians.raw == spec_atan2(self.y.raw as int, self.x.raw as int),
    {
        Rotation { radians: atan2_fx(self.y, self.x) }
    }

    /// Returns the polar vector pointing from `self` to `other`.
    pub fn vector_to(self, other: Coordinate) -> (r: Vector)
        ensures
            r == spec_vector_to(self, other),
    {
        let d = other.minus(self);
        Vector { magnitude: d.magnitude(), direction: d.as_rotation() }
    }
}

impl Rotation {
    /// Returns a rotation of the given fixed-point radians.
    pub fn radians(radians: Fixed) -> (r: Rotation)
        ensures
            r == (Rotation { radians }),
    {
        Rotation { radians }
    }

    /// The zero rotation.
    pub fn zero() -> (r: Rotation)
        ensures
            r == (Rotation { radians: Fixed { raw: 0 } }),
    {
        Rotation { radians: Fixed { raw: 0 } }
    }

    /// Returns a rotation of the given fixed-point degrees.
    pub fn degrees(degrees: Fixed) -> (r: Rotation)
        ensures
            r.radians.raw == spec_times(degrees.raw as int, RAD_PER_DEG_RAW as int),
    {
        Rotation { radians: degrees.times(Fixed { raw: RAD_PER_DEG_RAW }) }
    }

    /// This rotation converted to fixed-point degrees.
    pub fn to_degrees(self) -> (r: Fixed)
        ensures
            r.raw == spec_times(self.radians.raw as int, DEG_PER_RAD_RAW as int),
    {
        self.radians.times(Fixed { raw: DEG_PER_RAD_RAW })
    }

    /// This rotation in fixed-point radians.
    pub fn to_radians(self) -> (r: Fixed)
        ensures
            r == self.radians,
    {
        self.radians
    }

    /// This rotation reduced into the band [0, two pi).
    pub fn clamped(self) -> (r: Rotation)
        ensures
            r.radians.raw == spec_reduce(self.radians.raw as int),
            0 <= r.radians.raw < 411774,
    {
        Rotation { radians: Fixed { raw: reduce_angle(self.radians) } }
    }

    /// Saturating rotation addition.
    pub fn plus(self, o: Rotation) -> (r: Rotation)
        ensures
            r.radians.raw == spec_plus(self.radians.raw as int, o.radians.raw as int),
    {
        Rotation { radians: self.radians.plus(o.radians) }
    }

    /// Saturating rotation subtraction.
    pub fn minus(self, o: Rotation) -> (r: Rotation)
        ensures
            r.radians.raw == spec_minus(self.radians.raw as int, o.radians.raw as int),
    {
        Rotation { radians: self.radians.minus(o.radians) }
    }

    /// Saturating rotation negation.
    pub fn neg(self) -> (r: Rotation)
        ensures
            r.radians.raw == spec_neg(self.radians.raw as int),
    {
        Rotation { radians: self.radians.neg() }
    }

    /// The cosine of this rotation.
    pub fn cos(self) -> (r: Fixed)
        ensures
            r.raw == spec_cos(self.radians.raw as int),
    {
        self.radians.cos()
    }

    /// The sine of this rotation.
    pub fn sin(self) -> (r: Fixed)
        ensures
            r.raw == spec_sin(self.radians.raw as int),
    {
        self.radians.sin()
    }
}

impl Vector {
    /// Returns a new vector of the given magnitude and direction.
    pub fn new(magnitude: Fixed, direction: Rotation) -> (r: Vector)
        ensures
            r == (Vector { magnitude, direction }),
    {
        Vector { magnitude, direction }
    }

    /// This vector's cartesian offset.
    pub fn to_offset(self) -> (r: Coordinate)
        ensures
            r == spec_polar(self.magnitude, self.direction),
    {
        polar(self.magnitude, self.direction)
    }
}

/// The cartesian offset of the polar vector (len, dir).
pub fn polar(len: Fixed, dir: Rotation) -> (r: Coordinate)
    ensures
        r == spec_polar(len, dir),
{
    Coordinate { x: len.times(dir.radians.cos()), y: len.times(dir.radians.sin()) }
}

} // verus!
