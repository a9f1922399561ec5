//! The animation engine: timelines of keyframes that drive bone and joint
//! properties over time, a typed interpolation value algebra, and a
//! resumable, loop-aware playback cursor.

use vstd::prelude::*;
use vstd::pervasive::VecAdditionalExecFns;
use crate::fixed::{Fixed, fx, spec_minus, spec_plus, spec_times};
use crate::geometry::{Rotation, Vector, polar, spec_coord_plus, spec_magnitude, spec_polar};
use crate::trig::{atan2_fx, reduce_angle, spec_atan2, spec_cos, spec_reduce, spec_sin, spec_sqrt};
use crate::skeleton::{Bone, BoneId, BoneKind, Joint, JointId, Skeleton, SkeletonView, spec_full_length};

verus! {

/// A point on a timeline, measured in whole milliseconds.
#[derive(Clone, Copy, PartialEq, Eq, Structural, Debug)]
pub struct Frame(pub u32);

impl Frame {
    /// The frame at the given number of milliseconds.
    pub fn new(ms: u32) -> (r: Frame)
        ensures
            r.0 == ms,
    {
        Frame(ms)
    }

    /// The start of a timeline.
    pub fn zero() -> (r: Frame)
        ensures
            r.0 == 0,
    {
        Frame(0)
    }
}

/// The overshoot coefficient of the back curves (about 1.70158).
pub const BACK_C1_RAW: i64 = 111519;

/// One plus the overshoot coefficient of the back curves.
pub const BACK_C3_RAW: i64 = 177055;

/// The rebound coefficient of the bounce curves (exactly 7.5625).
pub const BOUNCE_N1_RAW: i64 = 495616;

/// A named curve mapping a linear time fraction to an eased fraction.
#[derive(Clone, Copy, PartialEq, Eq, Structural, Debug)]
pub enum Easing {
    /// The identity curve.
    Linear,
    /// Accelerating from zero: t squared.
    InQuad,
    /// Decelerating to zero: the mirror of [`Easing::InQuad`].
    OutQuad,
    /// Accelerating then decelerating, quadratically.
    InOutQuad,
    /// Accelerating from zero: t cubed.
    InCubic,
    /// Decelerating to zero: the mirror of [`Easing::InCubic`].
    OutCubic,
    /// Accelerating then decelerating, cubically.
    InOutCubic,
    /// Accelerating from zero along a quarter sine wave.
    InSine,
    /// Decelerating to zero along a quarter sine wave.
    OutSine,
    /// Accelerating then decelerating along a half sine wave.
    InOutSine,
    /// Accelerating from zero: t to the fourth power.
    InQuart,
    /// Decelerating to zero: the mirror of [`Easing::InQuart`].
    OutQuart,
    /// Accelerating then decelerating, quartically.
    InOutQuart,
    /// Accelerating from zero: t to the fifth power.
    InQuint,
    /// Decelerating to zero: the mirror of [`Easing::InQuint`].
    OutQuint,
    /// Accelerating then decelerating, quintically.
    InOutQuint,
    /// Accelerating from zero along a quarter circle.
    InCirc,
    /// Decelerating to zero along a quarter circle.
    OutCirc,
    /// Pulling back past zero before accelerating in.
    InBack,
    /// Overshooting past one before settling.
    OutBack,
    /// Bouncing away from zero with diminishing rebounds.
    InBounce,
    /// Bouncing into one with diminishing rebounds.
    OutBounce,
}

/// The decelerating bounce: four parabolic arcs with diminishing height.
pub open spec fn spec_bounce_out(t: int) -> int {
    if t < 23831 {
        spec_times(495616, spec_times(t, t))
    } else if t < 47662 {
        let u = spec_minus(t, 35747);
        spec_plus(spec_times(495616, spec_times(u, u)), 49152)
    } else if t < 59578 {
        let u = spec_minus(t, 53620);
        spec_plus(spec_times(495616, spec_times(u, u)), 61440)
    } else {
        let u = spec_minus(t, 62557);
        spec_plus(spec_times(495616, spec_times(u, u)), 64512)
    }
}

/// Computes the decelerating bounce curve.
fn bounce_out(t: Fixed) -> (r: Fixed)
    ensures
        r.raw == spec_bounce_out(t.raw as int),
{
    let n1 = Fixed { raw: BOUNCE_N1_RAW };
    if t.raw < 23831 {
        n1.times(t.times(t))
    } else if t.raw < 47662 {
        let u = t.minus(Fixed { raw: 35747 });
        n1.times(u.times(u)).plus(Fixed { raw: 49152 })
    } else if t.raw < 59578 {
        let u = t.minus(Fixed { raw: 53620 });
        n1.times(u.times(u)).plus(Fixed { raw: 61440 })
    } else {
        let u = t.minus(Fixed { raw: 62557 });
        n1.times(u.times(u)).plus(Fixed { raw: 64512 })
    }
}

/// The eased fraction for a linear fraction `t` (fixed-point, one is 65536).
pub open spec fn spec_ease(e: Easing, t: int) -> int {
    match e {
        Easing::Linear => t,
        Easing::InQuad => spec_times(t, t),
        Easing::OutQuad => spec_minus(65536, spec_times(spec_minus(65536, t), spec_minus(65536, t))),
        Easing::InOutQuad => if t < 32768 {
            spec_times(spec_times(t, t), 131072)
        } else {
            spec_minus(
                65536,
                spec_times(spec_times(spec_minus(65536, t), spec_minus(65536, t)), 131072),
            )
        },
        Easing::InCubic => spec_times(spec_times(t, t), t),
        Easing::OutCubic => spec_minus(
            65536,
            spec_times(
                spec_times(spec_minus(65536, t), spec_minus(65536, t)),
                spec_minus(65536, t),
            ),
        ),
        Easing::InOutCubic => if t < 32768 {
            spec_times(spec_times(spec_times(t, t), t), 262144)
        } else {
            let u = spec_minus(65536, t);
            spec_minus(65536, spec_times(spec_times(spec_times(u, u), u), 262144))
        },
        Easing::InSine => spec_minus(65536, spec_cos(spec_times(t, 102943))),
        Easing::OutSine => spec_sin(spec_times(t, 102943)),
        Easing::InOutSine => spec_times(
            spec_minus(65536, spec_cos(spec_times(t, 205887))),
            32768,
        ),
        Easing::InQuart => {
            let sq = spec_times(t, t);
            spec_times(sq, sq)
        },
        Easing::OutQuart => {
            let u = spec_minus(65536, t);
            let sq = spec_times(u, u);
            spec_minus(65536, spec_times(sq, sq))
        },
        Easing::InOutQuart => if t < 32768 {
            let sq = spec_times(t, t);
            spec_times(spec_times(sq, sq), 524288)
        } else {
            let u = spec_minus(65536, t);
            let sq = spec_times(u, u);
            spec_minus(65536, spec_times(spec_times(sq, sq), 524288))
        },
        Easing::InQuint => {
            let sq = spec_times(t, t);
            spec_times(spec_times(sq, sq), t)
        },
        Easing::OutQuint => {
            let u = spec_minus(65536, t);
            let sq = spec_times(u, u);
            spec_minus(65536, spec_times(spec_times(sq, sq), u))
        },
        Easing::InOutQuint => if t < 32768 {
            let sq = spec_times(t, t);
            spec_times(spec_times(spec_times(sq, sq), t), 1048576)
        } else {
            let u = spec_minus(65536, t);
            let sq = spec_times(u, u);
            spec_minus(65536, spec_times(spec_times(spec_times(sq, sq), u), 1048576))
        },
        Easing::InCirc => {
            let g = spec_minus(65536, spec_times(t, t));
            let gc = if g < 0 {
                0int
            } else {
                g
            };
            spec_minus(65536, spec_sqrt(gc))
        },
        Easing::OutCirc => {
            let m = spec_minus(t, 65536);
            let g = spec_minus(65536, spec_times(m, m));
            let gc = if g < 0 {
                0int
            } else {
                g
            };
            spec_sqrt(gc)
        },
        Easing::InBack => spec_minus(
            spec_times(177055, spec_times(spec_times(t, t), t)),
            spec_times(111519, spec_times(t, t)),
        ),
        Easing::OutBack => {
            let m = spec_minus(t, 65536);
            spec_plus(
                spec_plus(65536, spec_times(177055, spec_times(spec_times(m, m), m))),
                spec_times(111519, spec_times(m, m)),
            )
        },
        Easing::InBounce => spec_minus(65536, spec_bounce_out(spec_minus(65536, t))),
        Easing::OutBounce => spec_bounce_out(t),
    }
}

/// Applies an easing curve to a fixed-point fraction.
pub fn ease(e: Easing, t: Fixed) -> (r: Fixed)
    ensures
        r.raw == spec_ease(e, t.raw as int),
{
    match e {
        Easing::Linear => t,
        Easing::InQuad => t.times(t),
        Easing::OutQuad => {
            let u = Fixed { raw: 65536 }.minus(t);
            Fixed { raw: 65536 }.minus(u.times(u))
        }
        Easing::InOutQuad => {
            if t.raw < 32768 {
                t.times(t).times(Fixed { raw: 131072 })
            } else {
                let u = Fixed { raw: 65536 }.minus(t);
                Fixed { raw: 65536 }.minus(u.times(u).times(Fixed { raw: 131072 }))
            }
        }
        Easing::InCubic => t.times(t).times(t),
        Easing::OutCubic => {
            let u = Fixed { raw: 65536 }.minus(t);
            Fixed { raw: 65536 }.minus(u.times(u).times(u))
        }
        Easing::InOutCubic => {
            if t.raw < 32768 {
                t.times(t).times(t).times(Fixed { raw: 262144 })
            } else {
                let u = Fixed { raw: 65536 }.minus(t);
                Fixed { raw: 65536 }.minus(u.times(u).times(u).times(Fixed { raw: 262144 }))
            }
        }
        Easing::InSine => Fixed { raw: 65536 }.minus(
            t.times(Fixed { raw: crate::trig::HALF_PI_RAW }).cos(),
        ),
        Easing::OutSine => t.times(Fixed { raw: crate::trig::HALF_PI_RAW }).sin(),
        Easing::InOutSine => Fixed { raw: 65536 }.minus(
            t.times(Fixed { raw: crate::trig::PI_RAW }).cos(),
        ).times(Fixed { raw: 32768 }),
        Easing::InQuart => {
            let sq = t.times(t);
            sq.times(sq)
        }
        Easing::OutQuart => {
            let u = Fixed { raw: 65536 }.minus(t);
            let sq = u.times(u);
            Fixed { raw: 65536 }.minus(sq.times(sq))
        }
        Easing::InOutQuart => {
            if t.raw < 32768 {
                let sq = t.times(t);
                sq.times(sq).times(Fixed { raw: 524288 })
            } else {
                let u = Fixed { raw: 65536 }.minus(t);
                let sq = u.times(u);
                Fixed { raw: 65536 }.minus(sq.times(sq).times(Fixed { raw: 524288 }))
            }
        }
        Easing::InQuint => {
            let sq = t.times(t);
            sq.times(sq).times(t)
        }
        Easing::OutQuint => {
            let u = Fixed { raw: 65536 }.minus(t);
            let sq = u.times(u);
            Fixed { raw: 65536 }.minus(sq.times(sq).times(u))
        }
        Easing::InOutQuint => {
            if t.raw < 32768 {
                let sq = t.times(t);
                sq.times(sq).times(t).times(Fixed { raw: 1048576 })
            } else {
                let u = Fixed { raw: 65536 }.minus(t);
                let sq = u.times(u);
                Fixed { raw: 65536 }.minus(sq.times(sq).times(u).times(Fixed { raw: 1048576 }))
            }
        }
        Easing::InCirc => {
            let g = Fixed { raw: 65536 }.minus(t.times(t));
            let gc = if g.raw < 0 {
                Fixed { raw: 0 }
            } else {
                g
            };
            Fixed { raw: 65536 }.minus(gc.sqrt())
        }
        Easing::OutCirc => {
            let m = t.minus(Fixed { raw: 65536 });
            let g = Fixed { raw: 65536 }.minus(m.times(m));
            let gc = if g.raw < 0 {
                Fixed { raw: 0 }
            } else {
                g
            };
            gc.sqrt()
        }
        Easing::InBack => Fixed { raw: BACK_C3_RAW }.times(t.times(t).times(t)).minus(
            Fixed { raw: BACK_C1_RAW }.times(t.times(t)),
        ),
        Easing::OutBack => {
            let m = t.minus(Fixed { raw: 65536 });
            Fixed { raw: 65536 }.plus(Fixed { raw: BACK_C3_RAW }.times(m.times(m).times(m))).plus(
                Fixed { raw: BACK_C1_RAW }.times(m.times(m)),
            )
        }
        Easing::InBounce => Fixed { raw: 65536 }.minus(
            bounce_out(Fixed { raw: 65536 }.minus(t)),
        ),
        Easing::OutBounce => bounce_out(t),
    }
}

/// An animatable value: a number, a polar vector, a flag, or the result of a
/// type mismatch.
#[derive(Clone, Copy, PartialEq, Eq, Structural, Debug)]
pub enum Value {
    /// The result of combining mismatched variants.
    Invalid,
    /// A numeric value (an angle in fixed-point radians, for joint angles).
    Number(Fixed),
    /// A polar vector value.
    Vector(Vector),
    /// A boolean value.
    Bool(bool),
}

/// Linear interpolation of fixed-point numbers: a + (b - a) * p.
pub open spec fn spec_lerp_fx(a: int, b: int, p: int) -> int {
    spec_plus(a, spec_times(spec_minus(b, a), p))
}

/// Shortest-arc interpolation of rotations: of the upward and downward
/// deltas around the circle, the smaller one is scaled by the fraction.
pub open spec fn spec_lerp_rot(a: int, b: int, p: int) -> int {
    let up = spec_reduce(spec_minus(b, a));
    let down = spec_reduce(spec_minus(a, b));
    if down < up {
        spec_minus(a, spec_times(down, p))
    } else {
        spec_plus(a, spec_times(up, p))
    }
}

/// The sum of two polar vectors: converted to cartesian, added, and
/// converted back.
pub open spec fn spec_vector_plus(a: Vector, b: Vector) -> Vector {
    let c = spec_coord_plus(
        spec_polar(a.magnitude, a.direction),
        spec_polar(b.magnitude, b.direction),
    );
    Vector {
        magnitude: fx(spec_magnitude(c.x.raw as int, c.y.raw as int)),
        direction: Rotation { radians: fx(spec_atan2(c.y.raw as int, c.x.raw as int)) },
    }
}

/// Variant-matched interpolation: numbers linearly, vectors by magnitude and
/// shortest-arc direction, booleans stepping at one half; mismatched
/// variants interpolate to [`Value::Invalid`].
pub open spec fn spec_value_lerp(a: Value, b: Value, p: int) -> Value {
    match (a, b) {
        (Value::Number(x), Value::Number(y)) => Value::Number(
            fx(spec_lerp_fx(x.raw as int, y.raw as int, p)),
        ),
        (Value::Vector(x), Value::Vector(y)) => Value::Vector(
            Vector {
                magnitude: fx(spec_lerp_fx(x.magnitude.raw as int, y.magnitude.raw as int, p)),
                direction: Rotation {
                    radians: fx(
                        spec_lerp_rot(
                            x.direction.radians.raw as int,
                            y.direction.radians.raw as int,
                            p,
                        ),
                    ),
                },
            },
        ),
        (Value::Bool(x), Value::Bool(y)) => Value::Bool(
            if p >= 32768 {
                y
            } else {
                x
            },
        ),
        _ => Value::Invalid,
    }
}

/// Variant-matched addition: numbers add, vectors add as displacements,
/// booleans combine by exclusive or; mismatched variants give
/// [`Value::Invalid`].
pub open spec fn spec_value_plus(a: Value, b: Value) -> Value {
    match (a, b) {
        (Value::Number(x), Value::Number(y)) => Value::Number(
            fx(spec_plus(x.raw as int, y.raw as int)),
        ),
        (Value::Vector(x), Value::Vector(y)) => Value::Vector(spec_vector_plus(x, y)),
        (Value::Bool(x), Value::Bool(y)) => Value::Bool(x != y),
        _ => Value::Invalid,
    }
}

impl Value {
    /// Interpolates from this value toward `target` by the fixed-point
    /// fraction `percent`.
    pub fn lerp(self, target: Value, percent: Fixed) -> (r: Value)
        ensures
            r == spec_value_lerp(self, target, percent.raw as int),
    {
        match (self, target) {
            (Value::Number(x), Value::Number(y)) => Value::Number(
                x.plus(y.minus(x).times(percent)),
            ),
            (Value::Vector(x), Value::Vector(y)) => {
                let mag = x.magnitude.plus(y.magnitude.minus(x.magnitude).times(percent));
                let up = Fixed { raw: reduce_angle(y.direction.radians.minus(x.direction.radians)) };
                let down = Fixed { raw: reduce_angle(x.direction.radians.minus(y.direction.radians)) };
                let dir = if down.raw < up.raw {
                    x.direction.radians.minus(down.times(percent))
                } else {
                    x.direction.radians.plus(up.times(percent))
                };
                Value::Vector(Vector { magnitude: mag, direction: Rotation { radians: dir } })
            }
            (Value::Bool(x), Value::Bool(y)) => Value::Bool(
                if percent.raw >= 32768 {
                    y
                } else {
                    x
                },
            ),
            _ => Value::Invalid,
        }
    }

    /// Adds `other` to this value, variant-matched.
    pub fn plus(self, other: Value) -> (r: Value)
        ensures
            r == spec_value_plus(self, other),
    {
        match (self, other) {
            (Value::Number(x), Value::Number(y)) => Value::Number(x.plus(y)),
            (Value::Vector(x), Value::Vector(y)) => {
                let c = polar(x.magnitude, x.direction).plus(polar(y.magnitude, y.direction));
                let m = c.magnitude();
                let d = atan2_fx(c.y, c.x);
                Value::Vector(Vector { magnitude: m, direction: Rotation { radians: d } })
            }
            (Value::Bool(x), Value::Bool(y)) => Value::Bool(x != y),
            _ => Value::Invalid,
        }
    }
}

/// How a keyframe changes its target property.
#[derive(Clone, Copy, PartialEq, Eq, Structural, Debug)]
pub enum PropertyUpdate {
    /// Interpolate to exactly this value.
    ChangeTo(Value),
    /// Interpolate to the segment's starting value plus this delta.
    AddDelta(Value),
}

/// The value a segment interpolates toward, given its starting value.
pub open spec fn spec_update_target(u: PropertyUpdate, initial: Value) -> Value {
    match u {
        PropertyUpdate::ChangeTo(v) => v,
        PropertyUpdate::AddDelta(d) => spec_value_plus(initial, d),
    }
}

impl PropertyUpdate {
    /// Returns the value a segment interpolates toward, given its starting
    /// value.
    pub fn target(&self, initial: Value) -> (r: Value)
        ensures
            r == spec_update_target(*self, initial),
    {
        match self {
            PropertyUpdate::ChangeTo(v) => *v,
            PropertyUpdate::AddDelta(d) => initial.plus(*d),
        }
    }
}

/// A time offset, a property update, and an easing curve.
#[derive(Clone, Copy, PartialEq, Eq, Structural, Debug)]
pub struct Keyframe {
    /// The time offset of this keyframe.
    pub frame_offset: Frame,
    /// How the targeted property changes at this keyframe.
    pub update: PropertyUpdate,
    /// The easing applied to the segment ending at this keyframe.
    pub easing: Easing,
}

impl Keyframe {
    /// A keyframe at `frame_offset` applying `update` with linear easing.
    pub fn new(frame_offset: Frame, update: PropertyUpdate) -> (r: Keyframe)
        ensures
            r == (Keyframe { frame_offset, update, easing: Easing::Linear }),
    {
        Keyframe { frame_offset, update, easing: Easing::Linear }
    }

    /// Replaces the easing curve and returns the keyframe.
    pub fn with_easing(self, easing: Easing) -> (r: Keyframe)
        ensures
            r == (Keyframe { easing, ..self }),
    {
        Keyframe { easing, ..self }
    }
}

/// An animatable property of a bone.
#[derive(Clone, Copy, PartialEq, Eq, Structural, Debug)]
pub enum BoneProperty {
    /// The bone's aim target.
    Target,
    /// Whether a jointed bone bends inversely.
    Inverse,
}

/// The current value of a bone property. An unset aim target reads as a
/// vector of the bone's full length heading in direction zero.
pub open spec fn spec_bone_prop_get(p: BoneProperty, b: Bone) -> Value {
    match p {
        BoneProperty::Target => Value::Vector(
            match b.desired_end {
                Some(v) => v,
                None => Vector {
                    magnitude: spec_full_length(b.kind),
                    direction: Rotation { radians: Fixed { raw: 0 } },
                },
            },
        ),
        BoneProperty::Inverse => Value::Bool(
            match b.kind {
                BoneKind::Rigid { .. } => false,
                BoneKind::Jointed { inverse, .. } => inverse,
            },
        ),
    }
}

/// The bone after writing a value to one of its properties; a value of the
/// wrong variant changes nothing.
pub open spec fn spec_bone_prop_update(p: BoneProperty, val: Value, b: Bone) -> Bone {
    match p {
        BoneProperty::Target => match val {
            Value::Vector(v) => Bone { desired_end: Some(v), ..b },
            _ => b,
        },
        BoneProperty::Inverse => match val {
            Value::Bool(x) => Bone {
                kind: match b.kind {
                    BoneKind::Rigid { length } => BoneKind::Rigid { length },
                    BoneKind::Jointed { start_length, end_length, .. } => BoneKind::Jointed {
                        start_length,
                        end_length,
                        inverse: x,
                    },
                },
                ..b
            },
            _ => b,
        },
    }
}

impl BoneProperty {
    /// Reads this property from a bone.
    pub fn get(&self, bone: &Bone) -> (r: Value)
        ensures
            r == spec_bone_prop_get(*self, *bone),
    {
        match self {
            BoneProperty::Target => Value::Vector(
                match bone.desired_end {
                    Some(v) => v,
                    None => Vector {
                        magnitude: bone.kind.full_length(),
                        direction: Rotation { radians: Fixed { raw: 0 } },
                    },
                },
            ),
            BoneProperty::Inverse => Value::Bool(bone.kind.is_inverse()),
        }
    }

    /// Writes a value to this property of a bone; a value of the wrong
    /// variant changes nothing.
    pub fn update(&self, value: Value, bone: &mut Bone)
        ensures
            *final(bone) == spec_bone_prop_update(*self, value, *old(bone)),
    {
        match self {
            BoneProperty::Target => {
                match value {
                    Value::Vector(v) => {
                        bone.desired_end = Some(v);
                    }
                    _ => {
                    }
                }
            }
            BoneProperty::Inverse => {
                match value {
                    Value::Bool(x) => {
                        bone.kind.set_inverse(x);
                    }
                    _ => {
                    }
                }
            }
        }
    }
}

/// An animatable property of a joint.
#[derive(Clone, Copy, PartialEq, Eq, Structural, Debug)]
pub enum JointProperty {
    /// The joint's configured angle, as a number of radians.
    Angle,
}

/// The current value of a joint property.
pub open spec fn spec_joint_prop_get(p: JointProperty, j: Joint) -> Value {
    match p {
        JointProperty::Angle => Value::Number(j.angle.radians),
    }
}

/// The joint after writing a value to one of its properties: a numeric
/// angle is stored reduced into [0, two pi); a value of the wrong variant
/// changes nothing.
pub open spec fn spec_joint_prop_update(p: JointProperty, val: Value, j: Joint) -> Joint {
    match p {
        JointProperty::Angle => match val {
            Value::Number(v) => Joint {
                angle: Rotation { radians: fx(spec_reduce(v.raw as int)) },
                ..j
            },
            _ => j,
        },
    }
}

impl JointProperty {
    /// Reads this property from a joint.
    pub fn get(&self, joint: &Joint) -> (r: Value)
        ensures
            r == spec_joint_prop_get(*self, *joint),
    {
        match self {
            JointProperty::Angle => Value::Number(joint.angle.radians),
        }
    }

    /// Writes a value to this property of a joint; a value of the wrong
    /// variant changes nothing.
    pub fn update(&self, value: Value, joint: &mut Joint)
        ensures
            *final(joint) == spec_joint_prop_update(*self, value, *old(joint)),
    {
        match self {
            JointProperty::Angle => {
                match value {
                    Value::Number(v) => {
                        joint.angle = Rotation { radians: Fixed { raw: reduce_angle(v) } };
                    }
                    _ => {
                    }
                }
            }
        }
    }
}

/// Which property of which bone or joint a timeline drives.
#[derive(Clone, Copy, PartialEq, Eq, Structural, Debug)]
pub enum Target {
    /// A property of a bone.
    Bone {
        /// The bone driven by the timeline.
        bone: BoneId,
        /// The property driven on that bone.
        property: BoneProperty,
    },
    /// A property of a joint.
    Joint {
        /// The joint driven by the timeline.
        joint: JointId,
        /// The property driven on that joint.
        property: JointProperty,
    },
}

/// The current skeleton value of a target; an unknown id reads as
/// [`Value::Invalid`].
pub open spec fn spec_target_get(t: Target, v: SkeletonView) -> Value {
    match t {
        Target::Bone { bone, property } => if bone.0 < v.bones.len() {
            spec_bone_prop_get(property, v.bones[bone.0 as int])
        } else {
            Value::Invalid
        },
        Target::Joint { joint, property } => if joint.0 < v.joints.len() {
            spec_joint_prop_get(property, v.joints[joint.0 as int])
        } else {
            Value::Invalid
        },
    }
}

/// The skeleton after writing a value through a target; an unknown id
/// changes nothing.
pub open spec fn spec_target_update(t: Target, val: Value, v: SkeletonView) -> SkeletonView {
    match t {
        Target::Bone { bone, property } => if bone.0 < v.bones.len() {
            SkeletonView {
                bones: v.bones.update(
                    bone.0 as int,
                    spec_bone_prop_update(property, val, v.bones[bone.0 as int]),
                ),
                ..v
            }
        } else {
            v
        },
        Target::Joint { joint, property } => if joint.0 < v.joints.len() {
            SkeletonView {
                joints: v.joints.update(
                    joint.0 as int,
                    spec_joint_prop_update(property, val, v.joints[joint.0 as int]),
                ),
                ..v
            }
        } else {
            v
        },
    }
}

impl Target {
    /// Reads the targeted property from the skeleton's live fields.
    pub fn get(&self, skeleton: &Skeleton) -> (r: Value)
        ensures
            r == spec_target_get(*self, skeleton@),
    {
        match self {
            Target::Bone { bone, property } => {
                match skeleton.bone(*bone) {
                    Some(b) => property.get(b),
                    None => Value::Invalid,
                }
            }
            Target::Joint { joint, property } => {
                match skeleton.joint(*joint) {
                    Some(j) => property.get(j),
                    None => Value::Invalid,
                }
            }
        }
    }

    /// Writes a value through to the skeleton's live fields.
    pub fn update(&self, value: Value, skeleton: &mut Skeleton)
        ensures
            final(skeleton)@ == spec_target_update(*self, value, old(skeleton)@),
    {
        match self {
            Target::Bone { bone, property } => {
                match skeleton.bone_mut(*bone) {
                    Some(b) => {
                        property.update(value, b);
                    }
                    None => {
                    }
                }
            }
            Target::Joint { joint, property } => {
                match skeleton.joint_mut(*joint) {
                    Some(j) => {
                        property.update(value, j);
                    }
                    None => {
                    }
                }
            }
        }
    }
}

/// Keyframes in strictly ascending time-offset order (no duplicates).
pub open spec fn frames_sorted(frames: Seq<Keyframe>) -> bool {
    forall|i: int, j: int|
        0 <= i < j < frames.len() ==> (#[trigger] frames[i]).frame_offset.0
            < (#[trigger] frames[j]).frame_offset.0
}

/// Insertion keyed by time offset: a keyframe landing on an existing offset
/// replaces the keyframe there; otherwise it is placed in order.
pub open spec fn spec_insert_frame(frames: Seq<Keyframe>, f: Keyframe) -> Seq<Keyframe>
    decreases frames.len(),
{
    if frames.len() == 0 {
        seq![f]
    } else if f.frame_offset.0 < frames.first().frame_offset.0 {
        seq![f] + frames
    } else if f.frame_offset.0 == frames.first().frame_offset.0 {
        frames.update(0, f)
    } else {
        seq![frames.first()] + spec_insert_frame(frames.drop_first(), f)
    }
}

proof fn lemma_insert_frame_offsets(frames: Seq<Keyframe>, f: Keyframe)
    ensures
        forall|k: int|
            0 <= k < spec_insert_frame(frames, f).len() ==> (#[trigger] spec_insert_frame(
                frames,
                f,
            )[k]) == f || frames.contains(spec_insert_frame(frames, f)[k]),
        spec_insert_frame(frames, f).len() <= frames.len() + 1,
    decreases frames.len(),
{
    if frames.len() == 0 {
    } else if f.frame_offset.0 < frames.first().frame_offset.0 {
        assert forall|k: int| 0 <= k < (seq![f] + frames).len() implies (#[trigger] (seq![f]
            + frames)[k]) == f || frames.contains((seq![f] + frames)[k]) by {
            if k > 0 {
                assert((seq![f] + frames)[k] == frames[k - 1]);
            }
        }
    } else if f.frame_offset.0 == frames.first().frame_offset.0 {
        assert forall|k: int| 0 <= k < frames.update(0, f).len() implies (#[trigger] frames.update(
            0,
            f,
        )[k]) == f || frames.contains(frames.update(0, f)[k]) by {
            if k > 0 {
                assert(frames.update(0, f)[k] == frames[k]);
            }
        }
    } else {
        lemma_insert_frame_offsets(frames.drop_first(), f);
        let r = spec_insert_frame(frames, f);
        let rest = spec_insert_frame(frames.drop_first(), f);
        assert forall|k: int| 0 <= k < r.len() implies (#[trigger] r[k]) == f || frames.contains(
            r[k],
        ) by {
            if k == 0 {
                assert(r[0] == frames[0]);
                assert(frames.contains(frames[0]));
            } else {
                assert(r[k] == rest[k - 1]);
                if rest[k - 1] != f {
                    let j = choose|j: int|
                        0 <= j < frames.drop_first().len() && frames.drop_first()[j] == rest[k - 1];
                    assert(frames[j + 1] == rest[k - 1]);
                }
            }
        }
    }
}

proof fn lemma_insert_frame_sorted(frames: Seq<Keyframe>, f: Keyframe)
    requires
        frames_sorted(frames),
    ensures
        frames_sorted(spec_insert_frame(frames, f)),
    decreases frames.len(),
{
    let r = spec_insert_frame(frames, f);
    if frames.len() == 0 {
    } else if f.frame_offset.0 < frames.first().frame_offset.0 {
        assert forall|i: int, j: int| 0 <= i < j < r.len() implies (#[trigger] r[i]).frame_offset.0
            < (#[trigger] r[j]).frame_offset.0 by {
            if i > 0 {
                assert(r[i] == frames[i - 1] && r[j] == frames[j - 1]);
            } else {
                assert(r[j] == frames[j - 1]);
                assert(frames[0].frame_offset.0 <= frames[j - 1].frame_offset.0);
            }
        }
    } else if f.frame_offset.0 == frames.first().frame_offset.0 {
        assert forall|i: int, j: int| 0 <= i < j < r.len() implies (#[trigger] r[i]).frame_offset.0
            < (#[trigger] r[j]).frame_offset.0 by {
            assert(r[i].frame_offset.0 == frames[i].frame_offset.0);
            assert(r[j].frame_offset.0 == frames[j].frame_offset.0);
        }
    } else {
        assert(frames_sorted(frames.drop_first())) by {
            assert forall|i: int, j: int|
                0 <= i < j < frames.drop_first().len() implies (#[trigger] frames.drop_first()[
                i]).frame_offset.0 < (#[trigger] frames.drop_first()[j]).frame_offset.0 by {
                assert(frames.drop_first()[i] == frames[i + 1]);
                assert(frames.drop_first()[j] == frames[j + 1]);
            }
        }
        lemma_insert_frame_sorted(frames.drop_first(), f);
        lemma_insert_frame_offsets(frames.drop_first(), f);
        let rest = spec_insert_frame(frames.drop_first(), f);
        assert forall|i: int, j: int| 0 <= i < j < r.len() implies (#[trigger] r[i]).frame_offset.0
            < (#[trigger] r[j]).frame_offset.0 by {
            if i == 0 {
                assert(r[0] == frames[0]);
                assert(r[j] == rest[j - 1]);
                if rest[j - 1] == f {
                    assert(frames[0].frame_offset.0 < f.frame_offset.0);
                } else {
                    let m = choose|m: int|
                        0 <= m < frames.drop_first().len() && frames.drop_first()[m] == rest[j - 1];
                    assert(frames[m + 1] == rest[j - 1]);
                    assert(frames[0].frame_offset.0 < frames[m + 1].frame_offset.0);
                }
            } else {
                assert(r[i] == rest[i - 1] && r[j] == rest[j - 1]);
            }
        }
    }
}

/// A target property plus the keyframes that drive it, kept sorted by time
/// offset.
#[derive(Debug)]
pub struct Timeline {
    pub(crate) target: Target,
    pub(crate) frames: Vec<Keyframe>,
}

/// The mathematical model of a timeline.
#[verifier::ext_equal]
pub ghost struct TimelineView {
    /// The driven property.
    pub target: Target,
    /// The keyframes in time order.
    pub frames: Seq<Keyframe>,
}

impl View for Timeline {
    type V = TimelineView;

    closed spec fn view(&self) -> TimelineView {
        TimelineView { target: self.target, frames: self.frames@ }
    }
}

impl Timeline {
    /// The timeline's keyframes are strictly ordered by time offset.
    pub open spec fn wf(&self) -> bool {
        frames_sorted(self@.frames)
    }

    /// An empty timeline driving `target`.
    pub fn new(target: Target) -> (r: Timeline)
        ensures
            r@.target == target,
            r@.frames == Seq::<Keyframe>::empty(),
            r.wf(),
    {
        Timeline { target, frames: Vec::new() }
    }

    /// The property this timeline drives.
    pub fn target(&self) -> (r: Target)
        ensures
            r == self@.target,
    {
        self.target
    }

    /// The keyframes of this timeline, in time order.
    pub fn frames(&self) -> (r: &Vec<Keyframe>)
        ensures
            r@ == self@.frames,
    {
        &self.frames
    }

    /// Inserts a keyframe and returns the timeline.
    pub fn with_frame(self, frame: Keyframe) -> (r: Timeline)
        ensures
            r@.target == self@.target,
            r@.frames == spec_insert_frame(self@.frames, frame),
            self.wf() ==> r.wf(),
    {
        let mut t = self;
        t.insert_frame(frame);
        t
    }

    /// Inserts a keyframe keyed by its time offset; a keyframe landing on an
    /// existing offset replaces the keyframe there.
    pub fn insert_frame(&mut self, frame: Keyframe)
        ensures
            final(self)@.target == old(self)@.target,
            final(self)@.frames == spec_insert_frame(old(self)@.frames, frame),
            old(self).wf() ==> final(self).wf(),
    {
        let mut i: usize = 0;
        proof {
            assert(self@.frames.skip(0) =~= self@.frames);
            assert(self@.frames.take(0) =~= Seq::<Keyframe>::empty());
        }
        while i < self.frames.len() && self.frames[i].frame_offset.0 < frame.frame_offset.0
            invariant
                i <= self@.frames.len(),
                spec_insert_frame(self@.frames, frame) == self@.frames.take(i as int)
                    + spec_insert_frame(self@.frames.skip(i as int), frame),
            decreases self@.frames.len() - i,
        {
            proof {
                assert(self@.frames.skip(i as int).first() == self@.frames[i as int]);
                assert(self@.frames.skip(i as int).drop_first() =~= self@.frames.skip(i as int + 1));
                assert(self@.frames.take(i as int) + seq![self@.frames[i as int]] =~= self@.frames.take(
                    i as int + 1,
                ));
                assert(self@.frames.take(i as int) + (seq![self@.frames.skip(i as int).first()]
                    + spec_insert_frame(self@.frames.skip(i as int).drop_first(), frame))
                    =~= self@.frames.take(i as int + 1) + spec_insert_frame(
                    self@.frames.skip(i as int + 1),
                    frame,
                ));
            }
            i = i + 1;
        }
        let ghost pre = self@.frames;
        if i < self.frames.len() && self.frames[i].frame_offset.0 == frame.frame_offset.0 {
            self.frames.set(i, frame);
            proof {
                assert(pre.skip(i as int).update(0, frame) =~= pre.update(i as int, frame).skip(
                    i as int,
                ));
                assert(pre.take(i as int) + pre.update(i as int, frame).skip(i as int)
                    =~= pre.update(i as int, frame));
                assert(self@.frames =~= pre.update(i as int, frame));
            }
        } else {
            self.frames.insert(i, frame);
            proof {
                if i < pre.len() {
                    assert(spec_insert_frame(pre.skip(i as int), frame) == seq![frame] + pre.skip(
                        i as int,
                    ));
                } else {
                    assert(pre.skip(i as int) =~= Seq::<Keyframe>::empty());
                    assert(spec_insert_frame(pre.skip(i as int), frame) =~= seq![frame]);
                    assert(spec_insert_frame(pre.skip(i as int), frame) == seq![frame] + pre.skip(
                        i as int,
                    ));
                }
                assert(pre.take(i as int) + (seq![frame] + pre.skip(i as int)) =~= pre.insert(
                    i as int,
                    frame,
                ));
                assert(self@.frames =~= pre.insert(i as int, frame));
            }
        }
        proof {
            if frames_sorted(old(self)@.frames) {
                lemma_insert_frame_sorted(old(self)@.frames, frame);
            }
        }
    }

    /// Moves the keyframe at `index` to a new time offset, keeping order.
    /// When the new offset collides with a different existing keyframe, the
    /// mover's update and easing overwrite that keyframe and the mover is
    /// dropped.
    pub fn set_frame_offset(&mut self, index: usize, new_offset: Frame)
        requires
            index < old(self)@.frames.len(),
        ensures
            final(self)@.target == old(self)@.target,
            new_offset.0 == old(self)@.frames[index as int].frame_offset.0 ==> final(self)@.frames
                == old(self)@.frames,
            new_offset.0 != old(self)@.frames[index as int].frame_offset.0 ==> final(self)@.frames
                == spec_insert_frame(
                old(self)@.frames.remove(index as int),
                Keyframe { frame_offset: new_offset, ..old(self)@.frames[index as int] },
            ),
            old(self).wf() ==> final(self).wf(),
    {
        let current = self.frames[index].frame_offset;
        if current.0 == new_offset.0 {
            return;
        }
        let mut moved = self.frames.remove(index);
        moved.frame_offset = new_offset;
        self.insert_frame(moved);
        proof {
            if frames_sorted(old(self)@.frames) {
                let pre = old(self)@.frames;
                assert forall|i: int, j: int|
                    0 <= i < j < pre.remove(index as int).len() implies (#[trigger] pre.remove(
                    index as int,
                )[i]).frame_offset.0 < (#[trigger] pre.remove(index as int)[j]).frame_offset.0 by {
                    if i < index {
                        assert(pre.remove(index as int)[i] == pre[i]);
                    } else {
                        assert(pre.remove(index as int)[i] == pre[i + 1]);
                    }
                    if j < index {
                        assert(pre.remove(index as int)[j] == pre[j]);
                    } else {
                        assert(pre.remove(index as int)[j] == pre[j + 1]);
                    }
                }
            }
        }
    }
}

/// The lookup of a named variable: the first entry carrying the name.
pub open spec fn spec_lookup_var(vars: Seq<(String, Fixed)>, name: Seq<char>) -> Option<Fixed>
    decreases vars.len(),
{
    if vars.len() == 0 {
        None
    } else if vars.first().0@ == name {
        Some(vars.first().1)
    } else {
        spec_lookup_var(vars.drop_first(), name)
    }
}

/// Setting a named variable: the first entry carrying the name is updated in
/// place; a missing name is appended.
pub open spec fn spec_set_var(vars: Seq<(String, Fixed)>, name: String, value: Fixed) -> Seq<
    (String, Fixed),
>
    decreases vars.len(),
{
    if vars.len() == 0 {
        seq![(name, value)]
    } else if vars.first().0@ == name@ {
        vars.update(0, (vars.first().0, value))
    } else {
        seq![vars.first()] + spec_set_var(vars.drop_first(), name, value)
    }
}

/// A named set of numeric variables plus an ordered set of timelines.
#[derive(Debug)]
pub struct Animation {
    pub(crate) variables: Vec<(String, Fixed)>,
    pub(crate) timelines: Vec<Timeline>,
}

/// The mathematical model of an animation.
#[verifier::ext_equal]
pub ghost struct AnimationView {
    /// The named numeric variables, in insertion order.
    pub variables: Seq<(String, Fixed)>,
    /// The timelines, in push order.
    pub timelines: Seq<TimelineView>,
}

impl View for Animation {
    type V = AnimationView;

    closed spec fn view(&self) -> AnimationView {
        AnimationView {
            variables: self.variables@,
            timelines: self.timelines@.map_values(|t: Timeline| t@),
        }
    }
}

impl Animation {
    /// Every timeline's keyframes are in order.
    pub open spec fn wf(&self) -> bool {
        forall|i: int|
            0 <= i < self@.timelines.len() ==> frames_sorted(
                (#[trigger] self@.timelines[i]).frames,
            )
    }

    /// An empty animation.
    pub fn new() -> (r: Animation)
        ensures
            r@.variables == Seq::<(String, Fixed)>::empty(),
            r@.timelines == Seq::<TimelineView>::empty(),
            r.wf(),
    {
        let r = Animation { variables: Vec::new(), timelines: Vec::new() };
        proof {
            assert(r@.timelines =~= Seq::<TimelineView>::empty());
        }
        r
    }

    /// Appends a timeline.
    pub fn push(&mut self, timeline: Timeline)
        ensures
            final(self)@.variables == old(self)@.variables,
            final(self)@.timelines == old(self)@.timelines.push(timeline@),
    {
        self.timelines.push(timeline);
        proof {
            assert(self@.timelines =~= old(self)@.timelines.push(self.timelines@.last()@));
        }
    }

    /// Appends a timeline and returns the animation.
    pub fn with(self, timeline: Timeline) -> (r: Animation)
        ensures
            r@.variables == self@.variables,
            r@.timelines == self@.timelines.push(timeline@),
    {
        let mut a = self;
        a.push(timeline);
        a
    }

    /// Removes and returns the timeline at `index`.
    pub fn remove(&mut self, timeline_index: usize) -> (r: Timeline)
        requires
            timeline_index < old(self)@.timelines.len(),
        ensures
            final(self)@.variables == old(self)@.variables,
            r@ == old(self)@.timelines[timeline_index as int],
            final(self)@.timelines == old(self)@.timelines.remove(timeline_index as int),
    {
        let r = self.timelines.remove(timeline_index);
        proof {
            assert(self@.timelines =~= old(self)@.timelines.remove(timeline_index as int));
        }
        r
    }

    /// Inserts a timeline at `index`.
    pub fn insert(&mut self, index: usize, timeline: Timeline)
        requires
            index <= old(self)@.timelines.len(),
        ensures
            final(self)@.variables == old(self)@.variables,
            final(self)@.timelines == old(self)@.timelines.insert(index as int, timeline@),
    {
        self.timelines.insert(index, timeline);
        proof {
            assert(self@.timelines =~= old(self)@.timelines.insert(index as int, timeline@));
        }
    }

    /// The timelines of this animation, in order.
    pub fn timelines(&self) -> (r: &Vec<Timeline>)
        ensures
            r@.map_values(|t: Timeline| t@) == self@.timelines,
    {
        &self.timelines
    }

    /// The number of timelines.
    pub fn len(&self) -> (r: usize)
        ensures
            r == self@.timelines.len(),
    {
        self.timelines.len()
    }

    /// Sets a named numeric variable, updating an existing entry in place.
    pub fn set_variable(&mut self, name: &str, value: Fixed)
        ensures
            final(self)@.timelines == old(self)@.timelines,
            exists|s: String|
                s@ == name@ && final(self)@.variables == spec_set_var(
                    old(self)@.variables,
                    s,
                    value,
                ),
    {
        let ghost pre = self@.variables;
        let mut i: usize = 0;
        proof {
            assert(pre.skip(0) =~= pre);
            assert(pre.take(0) =~= Seq::<(String, Fixed)>::empty());
        }
        let needle: String = name.to_owned();
        while i < self.variables.len()
            invariant
                i <= self.variables@.len(),
                self@.variables == pre,
                pre == old(self)@.variables,
                needle@ == name@,
                self@.timelines == old(self)@.timelines,
                spec_set_var(pre, needle, value) == pre.take(i as int) + spec_set_var(
                    pre.skip(i as int),
                    needle,
                    value,
                ),
                forall|k: int| 0 <= k < i ==> (#[trigger] pre[k]).0@ != name@,
            decreases self.variables@.len() - i,
        {
            proof {
                assert(pre.skip(i as int).first() == pre[i as int]);
            }
            if self.variables[i].0.eq(&needle) {
                let v = &mut self.variables[i];
                v.1 = value;
                proof {
                    assert(self.variables@ =~= pre.update(i as int, (pre[i as int].0, value)));
                    assert(pre.skip(i as int).update(0, (pre[i as int].0, value)) =~= pre.update(
                        i as int,
                        (pre[i as int].0, value),
                    ).skip(i as int));
                    assert(pre.take(i as int) + pre.update(i as int, (pre[i as int].0, value)).skip(
                        i as int,
                    ) =~= pre.update(i as int, (pre[i as int].0, value)));
                    assert(self@.variables == spec_set_var(pre, needle, value));
                    assert(exists|s: String|
                        s@ == name@ && self@.variables == spec_set_var(
                            old(self)@.variables,
                            s,
                            value,
                        )) by {
                        assert(needle@ == name@ && self@.variables == spec_set_var(
                            old(self)@.variables,
                            needle,
                            value,
                        ));
                    }
                }
                return;
            }
            proof {
                assert(pre.skip(i as int).drop_first() =~= pre.skip(i as int + 1));
                assert(pre.take(i as int) + (seq![pre.skip(i as int).first()] + spec_set_var(
                    pre.skip(i as int + 1),
                    needle,
                    value,
                )) =~= pre.take(i as int + 1) + spec_set_var(pre.skip(i as int + 1), needle, value));
            }
            i = i + 1;
        }
        self.variables.push((needle, value));
        proof {
            assert(pre.skip(i as int) =~= Seq::<(String, Fixed)>::empty());
            let s = self.variables@.last().0;
            assert(spec_set_var(pre.skip(i as int), s, value) =~= seq![(s, value)]);
            assert(pre.take(i as int) =~= pre);
            assert(self.variables@ =~= pre + seq![(s, value)]);
            assert(spec_set_var(pre, s, value) == pre.take(i as int) + spec_set_var(
                pre.skip(i as int),
                s,
                value,
            )) by {
                lemma_set_var_shift(pre, s, value, needle);
            }
            assert(self@.variables == spec_set_var(pre, s, value));
            assert(exists|w: String|
                w@ == name@ && self@.variables == spec_set_var(old(self)@.variables, w, value))
                by {
                assert(s@ == name@ && self@.variables == spec_set_var(
                    old(self)@.variables,
                    s,
                    value,
                ));
            }
        }
    }

    /// Sets a named numeric variable and returns the animation.
    pub fn with_variable(self, name: &str, value: Fixed) -> (r: Animation)
        ensures
            r@.timelines == self@.timelines,
            exists|s: String|
                s@ == name@ && r@.variables == spec_set_var(self@.variables, s, value),
    {
        let mut a = self;
        a.set_variable(name, value);
        a
    }

    /// Looks up a named numeric variable.
    pub fn variable(&self, name: &str) -> (r: Option<Fixed>)
        ensures
            r == spec_lookup_var(self@.variables, name@),
    {
        let needle: String = name.to_owned();
        let mut i: usize = 0;
        proof {
            assert(self@.variables.skip(0) =~= self@.variables);
        }
        while i < self.variables.len()
            invariant
                i <= self.variables@.len(),
                needle@ == name@,
                spec_lookup_var(self@.variables, name@) == spec_lookup_var(
                    self@.variables.skip(i as int),
                    name@,
                ),
            decreases self.variables@.len() - i,
        {
            proof {
                assert(self@.variables.skip(i as int).first() == self@.variables[i as int]);
                assert(self@.variables.skip(i as int).drop_first() =~= self@.variables.skip(
                    i as int + 1,
                ));
            }
            if self.variables[i].0.eq(&needle) {
                return Some(self.variables[i].1);
            }
            i = i + 1;
        }
        proof {
            assert(self@.variables.skip(i as int) =~= Seq::<(String, Fixed)>::empty());
        }
        None
    }

    /// Creates a fresh playback of this animation: zero elapsed time,
    /// non-looping, with cursors seeded lazily on the first update.
    pub fn start(&self) -> (r: RunningAnimation)
        ensures
            r@.timelines == self@.timelines,
            r@.elapsed == 0,
            r@.repeat == false,
            r@.cursors == Seq::<RunningTimeline>::empty(),
            r.wf(),
    {
        let mut copies: Vec<Timeline> = Vec::new();
        let n = self.timelines.len();
        let mut i: usize = 0;
        while i < n
            invariant
                i <= n,
                n == self.timelines@.len(),
                copies@.len() == i,
                forall|k: int| 0 <= k < i ==> (#[trigger] copies@[k])@ == self.timelines@[k]@,
            decreases n - i,
        {
            let src = &self.timelines[i];
            let mut frames_copy: Vec<Keyframe> = Vec::new();
            let m = src.frames.len();
            let mut j: usize = 0;
            while j < m
                invariant
                    j <= m,
                    m == src.frames@.len(),
                    frames_copy@ == src.frames@.take(j as int),
                decreases m - j,
            {
                frames_copy.push(src.frames[j]);
                proof {
                    assert(src.frames@.take(j as int).push(src.frames@[j as int]) =~= src.frames@.take(
                        j as int + 1,
                    ));
                }
                j = j + 1;
            }
            proof {
                assert(src.frames@.take(m as int) =~= src.frames@);
            }
            copies.push(Timeline { target: src.target, frames: frames_copy });
            i = i + 1;
        }
        let r = RunningAnimation { timelines: copies, elapsed: 0, repeat: false, cursors: Vec::new() };
        proof {
            assert(r@.timelines =~= self@.timelines);
            assert(r@.cursors =~= Seq::<RunningTimeline>::empty());
        }
        r
    }
}

proof fn lemma_set_var_shift(vars: Seq<(String, Fixed)>, s: String, value: Fixed, witness: String)
    requires
        s@ == witness@,
        forall|k: int| 0 <= k < vars.len() ==> (#[trigger] vars[k]).0@ != s@,
    ensures
        spec_set_var(vars, s, value) == vars + seq![(s, value)],
    decreases vars.len(),
{
    if vars.len() == 0 {
        assert(spec_set_var(vars, s, value) =~= vars + seq![(s, value)]);
    } else {
        assert(vars.first().0@ != s@);
        assert forall|k: int| 0 <= k < vars.drop_first().len() implies (#[trigger] vars.drop_first(
        )[k]).0@ != s@ by {
            assert(vars.drop_first()[k] == vars[k + 1]);
        }
        lemma_set_var_shift(vars.drop_first(), s, value, witness);
        assert(seq![vars.first()] + (vars.drop_first() + seq![(s, value)]) =~= vars + seq![
            (s, value),
        ]);
    }
}

impl Default for Animation {
    /// An empty animation.
    fn default() -> (r: Animation)
        ensures
            r@.variables == Seq::<(String, Fixed)>::empty(),
            r@.timelines == Seq::<TimelineView>::empty(),
            r.wf(),
    {
        Animation::new()
    }
}

/// The playback cursor of one timeline: the index of the keyframe whose
/// segment is current, the global time at which that segment was entered,
/// and the segment's interpolation endpoints.
#[derive(Clone, Copy, PartialEq, Eq, Structural, Debug)]
pub struct RunningTimeline {
    /// The index of the keyframe bounding the current segment.
    pub frame: usize,
    /// The global elapsed time at which the current segment began.
    pub frame_entry: u32,
    /// The value the current segment interpolates from.
    pub frame_start_value: Value,
    /// The value the current segment interpolates toward.
    pub frame_target_value: Value,
}

/// A playback of an animation: elapsed time, per-timeline cursors, and a
/// loop flag. It owns a snapshot of the animation's timelines.
#[derive(Debug)]
pub struct RunningAnimation {
    pub(crate) timelines: Vec<Timeline>,
    pub(crate) elapsed: u64,
    pub(crate) repeat: bool,
    pub(crate) cursors: Vec<RunningTimeline>,
}

/// The mathematical model of a running animation.
#[verifier::ext_equal]
pub ghost struct RunningView {
    /// The snapshot of the driven timelines.
    pub timelines: Seq<TimelineView>,
    /// The accumulated elapsed time in milliseconds.
    pub elapsed: u64,
    /// Whether playback wraps around at the end.
    pub repeat: bool,
    /// The per-timeline playback cursors; empty until the first update.
    pub cursors: Seq<RunningTimeline>,
}

impl View for RunningAnimation {
    type V = RunningView;

    closed spec fn view(&self) -> RunningView {
        RunningView {
            timelines: self.timelines@.map_values(|t: Timeline| t@),
            elapsed: self.elapsed,
            repeat: self.repeat,
            cursors: self.cursors@,
        }
    }
}

/// Subtraction floored at zero.
pub open spec fn sat_sub(a: int, b: int) -> int {
    if a >= b {
        a - b
    } else {
        0
    }
}

/// The fixed-point fraction rel / total (exact integer arithmetic).
pub open spec fn spec_frac(rel: int, total: int) -> int {
    (rel * 65536) / total
}

/// Computes the fixed-point fraction rel / total.
pub fn frac_ms(rel: u32, total: u32) -> (r: Fixed)
    requires
        total > 0,
    ensures
        r.raw == spec_frac(rel as int, total as int),
{
    let q: u64 = ((rel as u64) * 65536) / (total as u64);
    Fixed { raw: q as i64 }
}

/// Advances one timeline's cursor to the global elapsed time `elapsed`,
/// possibly crossing several keyframe boundaries: while still inside a
/// segment, the eased interpolated value is written through the target and
/// the time to the segment's boundary is reported; each crossed boundary
/// snaps to the segment's exact target value; past the last keyframe the
/// elapsed time beyond the final boundary is reported instead.
#[verifier::opaque]
pub open spec fn spec_advance(
    c: RunningTimeline,
    tl: TimelineView,
    elapsed: u32,
    skel: SkeletonView,
) -> (RunningTimeline, SkeletonView, Result<u32, u32>)
    decreases tl.frames.len() - c.frame,
        when tl.frames.len() <= usize::MAX
{
    if c.frame >= tl.frames.len() {
        (c, skel, Err(sat_sub(elapsed as int, c.frame_entry as int) as u32))
    } else {
        let kf = tl.frames[c.frame as int];
        let boundary = kf.frame_offset.0;
        if (elapsed as int) < (boundary as int) {
            let duration = sat_sub(boundary as int, c.frame_entry as int);
            let rel = sat_sub(elapsed as int, c.frame_entry as int);
            let p = if duration > 0 {
                spec_frac(rel, duration)
            } else {
                65536int
            };
            let val = spec_value_lerp(
                c.frame_start_value,
                c.frame_target_value,
                spec_ease(kf.easing, p),
            );
            (
                c,
                spec_target_update(tl.target, val, skel),
                Ok(((boundary as int) - (elapsed as int)) as u32),
            )
        } else {
            let snap = spec_value_lerp(c.frame_start_value, c.frame_target_value, 65536);
            let skel2 = spec_target_update(tl.target, snap, skel);
            let nt = if c.frame + 1 < tl.frames.len() {
                spec_update_target(tl.frames[c.frame as int + 1].update, snap)
            } else {
                c.frame_target_value
            };
            let c2 = RunningTimeline {
                frame: (c.frame + 1) as usize,
                frame_entry: boundary,
                frame_start_value: snap,
                frame_target_value: nt,
            };
            spec_advance(c2, tl, elapsed, skel2)
        }
    }
}

fn advance_timeline(tl: &Timeline, c0: RunningTimeline, elapsed: u32, skel: &mut Skeleton) -> (r: (
    RunningTimeline,
    Result<u32, u32>,
))
    ensures
        ({
            let t = spec_advance(c0, tl@, elapsed, old(skel)@);
            r.0 == t.0 && final(skel)@ == t.1 && r.1 == t.2
        }),
{
    let ghost t = spec_advance(c0, tl@, elapsed, skel@);
    let mut cur = c0;
    loop
        invariant
            t == spec_advance(c0, tl@, elapsed, old(skel)@),
            spec_advance(cur, tl@, elapsed, skel@) == t,
        decreases (if cur.frame <= tl.frames@.len() {
            tl.frames@.len() - cur.frame
        } else {
            0int
        }),
    {
        proof {
            reveal(spec_advance);
        }
        if cur.frame >= tl.frames.len() {
            let ov = if elapsed >= cur.frame_entry {
                elapsed - cur.frame_entry
            } else {
                0
            };
            return (cur, Err(ov));
        }
        let kf = tl.frames[cur.frame];
        let boundary = kf.frame_offset.0;
        if elapsed < boundary {
            let duration = if boundary >= cur.frame_entry {
                boundary - cur.frame_entry
            } else {
                0
            };
            let rel = if elapsed >= cur.frame_entry {
                elapsed - cur.frame_entry
            } else {
                0
            };
            let p = if duration > 0 {
                frac_ms(rel, duration)
            } else {
                Fixed { raw: 65536 }
            };
            let eased = ease(kf.easing, p);
            let val = cur.frame_start_value.lerp(cur.frame_target_value, eased);
            let tgt = tl.target;
            tgt.update(val, skel);
            return (cur, Ok(boundary - elapsed));
        }
        let snap = cur.frame_start_value.lerp(cur.frame_target_value, Fixed { raw: 65536 });
        let tgt = tl.target;
        tgt.update(snap, skel);
        let nt = if cur.frame + 1 < tl.frames.len() {
            tl.frames[cur.frame + 1].update.target(snap)
        } else {
            cur.frame_target_value
        };
        cur = RunningTimeline {
            frame: cur.frame + 1,
            frame_entry: boundary,
            frame_start_value: snap,
            frame_target_value: nt,
        };
    }
}

/// Fresh cursors for each timeline: segment-start value read from the
/// skeleton, segment-target value from the first keyframe's update.
pub open spec fn spec_seed(tls: Seq<TimelineView>, skel: SkeletonView) -> Seq<RunningTimeline> {
    Seq::new(
        tls.len(),
        |i: int|
            RunningTimeline {
                frame: 0,
                frame_entry: 0,
                frame_start_value: spec_target_get(tls[i].target, skel),
                frame_target_value: if tls[i].frames.len() > 0 {
                    spec_update_target(tls[i].frames[0].update, spec_target_get(tls[i].target, skel))
                } else {
                    Value::Invalid
                },
            },
    )
}

/// One pass over all timelines at global time `frame`: each cursor is
/// advanced, the minimum reported overflow is tracked, and the pass reports
/// whether any timeline is still mid-segment.
pub open spec fn spec_pass(
    tls: Seq<TimelineView>,
    cs: Seq<RunningTimeline>,
    frame: u32,
    skel: SkeletonView,
    rem: u32,
) -> (Seq<RunningTimeline>, SkeletonView, bool, u32)
    decreases tls.len(),
{
    if tls.len() == 0 || cs.len() == 0 {
        (cs, skel, false, rem)
    } else {
        let a = spec_advance(cs.first(), tls.first(), frame, skel);
        let running = a.2 is Ok;
        let rem2 = match a.2 {
            Ok(_) => rem,
            Err(u) => if u < rem {
                u
            } else {
                rem
            },
        };
        let rec = spec_pass(tls.drop_first(), cs.drop_first(), frame, a.1, rem2);
        (seq![a.0] + rec.0, rec.1, running || rec.2, rec.3)
    }
}

proof fn lemma_pass_len(
    tls: Seq<TimelineView>,
    cs: Seq<RunningTimeline>,
    frame: u32,
    skel: SkeletonView,
    rem: u32,
)
    ensures
        spec_pass(tls, cs, frame, skel, rem).0.len() == cs.len(),
    decreases tls.len(),
{
    if tls.len() == 0 || cs.len() == 0 {
    } else {
        let a = spec_advance(cs.first(), tls.first(), frame, skel);
        let rem2 = match a.2 {
            Ok(_) => rem,
            Err(u) => if u < rem {
                u
            } else {
                rem
            },
        };
        lemma_pass_len(tls.drop_first(), cs.drop_first(), frame, a.1, rem2);
    }
}

proof fn lemma_run_len(
    tls: Seq<TimelineView>,
    cs: Seq<RunningTimeline>,
    elapsed64: u64,
    frame: u32,
    skel: SkeletonView,
    repeat: bool,
)
    requires
        cs.len() == tls.len(),
    ensures
        spec_run(tls, cs, elapsed64, frame, skel, repeat).0.len() == tls.len(),
    decreases frame,
{
    let p = spec_pass(tls, cs, frame, skel, frame);
    lemma_pass_len(tls, cs, frame, skel, frame);
    if p.2 {
    } else if !repeat {
    } else if p.3 >= frame {
    } else {
        lemma_run_len(tls, spec_seed(tls, p.1), p.3 as u64, p.3, p.1, repeat);
    }
}

/// Repeated passes: a pass with a timeline still mid-segment leaves the
/// animation running; a finished pass ends a non-looping animation, while a
/// looping one rewinds the elapsed time to the minimum overflow (preserving
/// the remainder past the final boundary), reseeds the cursors, and goes
/// again. A looping cycle that consumes no time leaves playback unchanged
/// and reports the animation as still running.
pub open spec fn spec_run(
    tls: Seq<TimelineView>,
    cs: Seq<RunningTimeline>,
    elapsed64: u64,
    frame: u32,
    skel: SkeletonView,
    repeat: bool,
) -> (Seq<RunningTimeline>, SkeletonView, u64, bool)
    decreases frame,
{
    let p = spec_pass(tls, cs, frame, skel, frame);
    if p.2 {
        (p.0, p.1, elapsed64, false)
    } else if !repeat {
        (p.0, p.1, elapsed64, true)
    } else if p.3 >= frame {
        (p.0, p.1, elapsed64, false)
    } else {
        spec_run(tls, spec_seed(tls, p.1), p.3 as u64, p.3, p.1, repeat)
    }
}

/// A whole update step: on the first call the cursors are seeded; the
/// elapsed time advances, saturating at the bounds of its representation;
/// then passes run as [`spec_run`] describes. An animation with no
/// timelines reports itself as still running and changes nothing.
pub open spec fn spec_update(rv: RunningView, delta: u64, skel: SkeletonView) -> (
    RunningView,
    SkeletonView,
    bool,
) {
    if rv.timelines.len() == 0 {
        (rv, skel, false)
    } else {
        let cs0 = if rv.cursors.len() == 0 {
            spec_seed(rv.timelines, skel)
        } else {
            rv.cursors
        };
        let e2 = if delta > u64::MAX - rv.elapsed {
            u64::MAX
        } else {
            (rv.elapsed + delta) as u64
        };
        let frame: u32 = if e2 > u32::MAX as u64 {
            u32::MAX
        } else {
            e2 as u32
        };
        let r = spec_run(rv.timelines, cs0, e2, frame, skel, rv.repeat);
        (RunningView { cursors: r.0, elapsed: r.2, ..rv }, r.1, r.3)
    }
}

impl RunningAnimation {
    /// The cursors are either unseeded or one per timeline.
    pub open spec fn wf(&self) -> bool {
        self@.cursors.len() == 0 || self@.cursors.len() == self@.timelines.len()
    }

    /// Enables wraparound: when every timeline has finished, playback
    /// rewinds by the minimum overflow and continues.
    pub fn looping(self) -> (r: RunningAnimation)
        ensures
            r@ == (RunningView { repeat: true, ..self@ }),
    {
        let mut a = self;
        a.repeat = true;
        a
    }

    /// The accumulated elapsed time, in milliseconds.
    pub fn elapsed(&self) -> (r: u64)
        ensures
            r == self@.elapsed,
    {
        self.elapsed
    }

    fn reseed(&mut self, skeleton: &Skeleton)
        ensures
            final(self)@ == (RunningView {
                cursors: spec_seed(old(self)@.timelines, skeleton@),
                ..old(self)@
            }),
    {
        let mut cs: Vec<RunningTimeline> = Vec::new();
        let n = self.timelines.len();
        let mut i: usize = 0;
        while i < n
            invariant
                i <= n,
                n == self.timelines@.len(),
                cs@.len() == i,
                forall|k: int|
                    0 <= k < i ==> (#[trigger] cs@[k]) == spec_seed(self@.timelines, skeleton@)[k],
            decreases n - i,
        {
            let tgt = self.timelines[i].target;
            let sv = tgt.get(skeleton);
            let tv = if self.timelines[i].frames.len() > 0 {
                self.timelines[i].frames[0].update.target(sv)
            } else {
                Value::Invalid
            };
            cs.push(
                RunningTimeline {
                    frame: 0,
                    frame_entry: 0,
                    frame_start_value: sv,
                    frame_target_value: tv,
                },
            );
            i = i + 1;
        }
        self.cursors = cs;
        proof {
            assert(self@.cursors =~= spec_seed(old(self)@.timelines, skeleton@));
            assert(final(self)@ =~= (RunningView {
                cursors: spec_seed(old(self)@.timelines, skeleton@),
                ..old(self)@
            }));
        }
    }

    /// Advances playback by `delta_ms` milliseconds, writing interpolated
    /// values through to the skeleton; returns true exactly when a
    /// non-looping animation has finished.
    #[verifier::rlimit(100)]
    pub fn update(&mut self, delta_ms: u64, skeleton: &mut Skeleton) -> (done: bool)
        requires
            old(self).wf(),
        ensures
            final(self).wf(),
            ({
                let t = spec_update(old(self)@, delta_ms, old(skeleton)@);
                final(self)@ == t.0 && final(skeleton)@ == t.1 && done == t.2
            }),
    {
        if self.timelines.len() == 0 {
            return false;
        }
        if self.cursors.len() == 0 {
            self.reseed(skeleton);
        }
        let e2: u64 = if delta_ms > u64::MAX - self.elapsed {
            u64::MAX
        } else {
            self.elapsed + delta_ms
        };
        self.elapsed = e2;
        let mut frame: u32 = if e2 > u32::MAX as u64 {
            u32::MAX
        } else {
            e2 as u32
        };
        let ghost run_target = spec_run(
            self@.timelines,
            self@.cursors,
            e2,
            frame,
            skeleton@,
            self@.repeat,
        );
        proof {
            assert(spec_update(old(self)@, delta_ms, old(skeleton)@) == ((RunningView {
                cursors: run_target.0,
                elapsed: run_target.2,
                ..old(self)@
            }), run_target.1, run_target.3));
        }
        loop
            invariant
                self@.timelines == old(self)@.timelines,
                self@.repeat == old(self)@.repeat,
                self@.cursors.len() == self@.timelines.len(),
                spec_run(
                    self@.timelines,
                    self@.cursors,
                    self@.elapsed,
                    frame,
                    skeleton@,
                    self@.repeat,
                ) == run_target,
                spec_update(old(self)@, delta_ms, old(skeleton)@) == ((RunningView {
                    cursors: run_target.0,
                    elapsed: run_target.2,
                    ..old(self)@
                }), run_target.1, run_target.3),
            decreases frame,
        {
            let ghost cs_pre = self@.cursors;
            let ghost skel_pre = skeleton@;
            let ghost el_pass = self@.elapsed;
            let ghost pass_target = spec_pass(self@.timelines, cs_pre, frame, skel_pre, frame);
            proof {
                lemma_pass_len(self@.timelines, cs_pre, frame, skel_pre, frame);
            }
            let mut still = false;
            let mut remaining: u32 = frame;
            let n = self.timelines.len();
            proof {
                assert(self@.timelines.skip(0) =~= self@.timelines);
                assert(cs_pre.skip(0) =~= cs_pre);
                assert(cs_pre.take(0) =~= Seq::<RunningTimeline>::empty());
            }
            let mut i: usize = 0;
            while i < n
                invariant
                    n == self.timelines@.len(),
                    i <= n,
                    self@.timelines == old(self)@.timelines,
                    self@.repeat == old(self)@.repeat,
                    self@.elapsed == el_pass,
                    cs_pre.len() == n,
                    pass_target.0.len() == n,
                    self@.cursors.len() == cs_pre.len(),
                    ({
                        let rec = spec_pass(
                            self@.timelines.skip(i as int),
                            self@.cursors.skip(i as int),
                            frame,
                            skeleton@,
                            remaining,
                        );
                        rec.0 == pass_target.0.skip(i as int) && rec.1 == pass_target.1 && (still
                            || rec.2) == pass_target.2 && rec.3 == pass_target.3
                    }),
                    self@.cursors.take(i as int) == pass_target.0.take(i as int),
                    self@.cursors.skip(i as int) == cs_pre.skip(i as int),
                decreases n - i,
            {
                let ghost cs_now = self@.cursors;
                let c0 = self.cursors[i];
                let ar = advance_timeline(&self.timelines[i], c0, frame, skeleton);
                self.cursors.set(i, ar.0);
                match ar.1 {
                    Ok(_) => {
                        still = true;
                    }
                    Err(u) => {
                        if u < remaining {
                            remaining = u;
                        }
                    }
                }
                proof {
                    assert(self@.timelines.skip(i as int).first() == self@.timelines[i as int]);
                    assert(cs_now.skip(i as int).first() == cs_now[i as int]);
                    assert(c0 == cs_now[i as int]);
                    assert(self@.timelines.skip(i as int).drop_first() =~= self@.timelines.skip(
                        i as int + 1,
                    ));
                    assert(cs_now.skip(i as int).drop_first() =~= cs_now.skip(i as int + 1));
                    assert(self@.cursors =~= cs_now.update(i as int, ar.0));
                    assert(self@.cursors.skip(i as int + 1) =~= cs_now.skip(i as int + 1));
                    assert(pass_target.0.skip(i as int).first() == pass_target.0[i as int]);
                    assert(ar.0 == pass_target.0[i as int]);
                    assert(self@.cursors.take(i as int + 1) =~= pass_target.0.take(i as int).push(
                        pass_target.0[i as int],
                    ));
                    assert(pass_target.0.take(i as int).push(pass_target.0[i as int])
                        =~= pass_target.0.take(i as int + 1));
                    assert(pass_target.0.skip(i as int).drop_first() =~= pass_target.0.skip(
                        i as int + 1,
                    ));
                }
                i = i + 1;
            }
            proof {
                assert(self@.timelines.skip(n as int) =~= Seq::<TimelineView>::empty());
                assert(self@.cursors.take(n as int) =~= self@.cursors);
                assert(pass_target.0.take(n as int) =~= pass_target.0);
                assert(pass_target.0 == self@.cursors && pass_target.1 == skeleton@ && pass_target.2
                    == still && pass_target.3 == remaining);
            }
            if still {
                proof {
                    assert(run_target == (self@.cursors, skeleton@, el_pass, false));
                    assert(self@ =~= (RunningView {
                        cursors: run_target.0,
                        elapsed: run_target.2,
                        ..old(self)@
                    }));
                }
                return false;
            }
            if !self.repeat {
                proof {
                    assert(run_target == (self@.cursors, skeleton@, el_pass, true));
                    assert(self@ =~= (RunningView {
                        cursors: run_target.0,
                        elapsed: run_target.2,
                        ..old(self)@
                    }));
                }
                return true;
            }
            if remaining >= frame {
                proof {
                    assert(run_target == (self@.cursors, skeleton@, el_pass, false));
                    assert(self@ =~= (RunningView {
                        cursors: run_target.0,
                        elapsed: run_target.2,
                        ..old(self)@
                    }));
                }
                return false;
            }
            self.elapsed = remaining as u64;
            frame = remaining;
            self.reseed(skeleton);
        }
    }
}

/// A looping playback over a single segment, driven past its end in one
/// update, resumes mid-cycle: with keyframes at offsets zero and `d`, a
/// fresh looping playback advanced by `d + r` milliseconds (with `r`
/// strictly between zero and `d`) reports itself still running and holds
/// elapsed time exactly `r` -- the overflow past the final boundary is
/// preserved as the phase of the next cycle rather than reset to zero.
pub proof fn lemma_looping_preserves_remainder(
    tl: TimelineView,
    skel: SkeletonView,
    d: u32,
    r: u32,
)
    requires
        tl.frames.len() == 2,
        tl.frames[0].frame_offset.0 == 0,
        tl.frames[1].frame_offset.0 == d,
        0 < r < d,
        d as int + r as int <= u32::MAX as int,
    ensures
        ({
            let rv = RunningView {
                timelines: seq![tl],
                elapsed: 0,
                repeat: true,
                cursors: Seq::<RunningTimeline>::empty(),
            };
            let t = spec_update(rv, (d + r) as u64, skel);
            t.0.elapsed == r as u64 && t.2 == false
        }),
{
    reveal(spec_advance);
    let rv = RunningView {
        timelines: seq![tl],
        elapsed: 0,
        repeat: true,
        cursors: Seq::<RunningTimeline>::empty(),
    };
    let tls = rv.timelines;
    let delta = (d + r) as u64;
    let frame = (d + r) as u32;
    let cs0 = spec_seed(tls, skel);
    let c0 = cs0[0];
    assert(c0.frame == 0 && c0.frame_entry == 0);

    // First pass: both boundaries are crossed and the overflow past the
    // final one is r.
    let snap1 = spec_value_lerp(c0.frame_start_value, c0.frame_target_value, 65536);
    let skel1 = spec_target_update(tl.target, snap1, skel);
    let c1 = RunningTimeline {
        frame: 1,
        frame_entry: 0,
        frame_start_value: snap1,
        frame_target_value: spec_update_target(tl.frames[1].update, snap1),
    };
    assert(spec_advance(c0, tl, frame, skel) == spec_advance(c1, tl, frame, skel1));
    let snap2 = spec_value_lerp(c1.frame_start_value, c1.frame_target_value, 65536);
    let skel2 = spec_target_update(tl.target, snap2, skel1);
    let c2 = RunningTimeline {
        frame: 2,
        frame_entry: d,
        frame_start_value: snap2,
        frame_target_value: c1.frame_target_value,
    };
    assert(spec_advance(c1, tl, frame, skel1) == spec_advance(c2, tl, frame, skel2));
    assert(spec_advance(c2, tl, frame, skel2) == (
        c2,
        skel2,
        Err::<u32, u32>(r),
    ));
    let p1 = spec_pass(tls, cs0, frame, skel, frame);
    assert(cs0.first() == c0);
    assert(tls.first() == tl);
    assert(spec_advance(c0, tl, frame, skel) == (c2, skel2, Err::<u32, u32>(r)));
    assert(tls.drop_first().len() == 0);
    assert(spec_pass(tls.drop_first(), cs0.drop_first(), frame, skel2, r) == (
        cs0.drop_first(),
        skel2,
        false,
        r,
    ));
    assert(r < frame);
    assert(p1 == (seq![c2] + cs0.drop_first(), skel2, false, r));

    // The pass finished, so the looping run rewinds to r and reseeds.
    let run1 = spec_run(tls, cs0, delta, frame, skel, true);
    let cs2 = spec_seed(tls, skel2);
    assert(run1 == spec_run(tls, cs2, r as u64, r, skel2, true));

    // Second pass: the zero boundary is crossed, and the cursor sits r
    // milliseconds into the rebuilt first segment, still running.
    let c0b = cs2[0];
    assert(c0b.frame == 0 && c0b.frame_entry == 0);
    let snap1b = spec_value_lerp(c0b.frame_start_value, c0b.frame_target_value, 65536);
    let skel3 = spec_target_update(tl.target, snap1b, skel2);
    let c1b = RunningTimeline {
        frame: 1,
        frame_entry: 0,
        frame_start_value: snap1b,
        frame_target_value: spec_update_target(tl.frames[1].update, snap1b),
    };
    assert(spec_advance(c0b, tl, r, skel2) == spec_advance(c1b, tl, r, skel3));
    assert(spec_advance(c1b, tl, r, skel3).2 is Ok);
    let p2 = spec_pass(tls, cs2, r, skel2, r);
    assert(p2.2);
    assert(spec_run(tls, cs2, r as u64, r, skel2, true) == (p2.0, p2.1, r as u64, false));

    assert(spec_update(rv, delta, skel).0.elapsed == r as u64);
    assert(spec_update(rv, delta, skel).2 == false);
}

} // verus!