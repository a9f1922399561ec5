use funnybones::animation::{
    Animation, BoneProperty, Easing, Frame, JointProperty, Keyframe, PropertyUpdate,
    RunningAnimation, Target, Timeline, Value,
};
use funnybones::fixed::Fixed;
use funnybones::geometry::{Rotation, Vector};
use funnybones::skeleton::{BoneKind, Joint, Skeleton};

fn angle_f32(s: &Skeleton, j: funnybones::skeleton::JointId) -> f32 {
    s.joint(j).unwrap().angle().to_radians().raw as f32 / 65536.0
}

fn assert_approx_eq(lhs: f32, rhs: f32) {
    assert!((lhs - rhs).abs() < 0.0001, "{lhs} != {rhs}");
}

#[test]
fn basic() {
    let mut skeleton = Skeleton::default();
    let root = skeleton.push_bone(BoneKind::Rigid { length: Fixed::from_int(1) }, "");
    let arm = skeleton.push_bone(BoneKind::Rigid { length: Fixed::from_int(1) }, "");
    let joint = skeleton.push_joint(Joint::new(
        Rotation::zero(),
        root.axis_b(),
        arm.axis_a(),
    ));

    let animation = Animation::default().with(
        Timeline::new(Target::Joint {
            joint,
            property: JointProperty::Angle,
        })
        .with_frame(Keyframe::new(
            Frame::zero(),
            PropertyUpdate::ChangeTo(Value::Number(Fixed::from_int(0))),
        ))
        .with_frame(Keyframe::new(
            Frame::new(1_000),
            PropertyUpdate::AddDelta(Value::Number(Fixed::from_int(1))),
        )),
    );

    let mut running = animation.start();
    assert!(!running.update(0, &mut skeleton));
    assert_approx_eq(angle_f32(&skeleton, joint), 0.);
    assert!(!running.update(250, &mut skeleton));
    assert_approx_eq(angle_f32(&skeleton, joint), 0.25);
    assert!(!running.update(500, &mut skeleton));
    assert_approx_eq(angle_f32(&skeleton, joint), 0.75);
    assert!(running.update(500, &mut skeleton));
    assert_approx_eq(angle_f32(&skeleton, joint), 1.0);
}

#[test]
fn looping_wraps_preserving_remainder() {
    let mut skeleton = Skeleton::default();
    let root = skeleton.push_bone(BoneKind::Rigid { length: Fixed::from_int(1) }, "");
    let arm = skeleton.push_bone(BoneKind::Rigid { length: Fixed::from_int(1) }, "");
    let joint = skeleton.push_joint(Joint::new(
        Rotation::zero(),
        root.axis_b(),
        arm.axis_a(),
    ));

    let animation = Animation::default().with(
        Timeline::new(Target::Joint {
            joint,
            property: JointProperty::Angle,
        })
        .with_frame(Keyframe::new(
            Frame::zero(),
            PropertyUpdate::ChangeTo(Value::Number(Fixed::from_int(0))),
        ))
        .with_frame(Keyframe::new(
            Frame::new(1_000),
            PropertyUpdate::ChangeTo(Value::Number(Fixed::from_int(1))),
        )),
    );

    let mut running: RunningAnimation = animation.start().looping();
    assert!(!running.update(1_500, &mut skeleton));
    assert_eq!(running.elapsed(), 500);
    assert_approx_eq(angle_f32(&skeleton, joint), 0.5);
}

#[test]
fn bone_property_timeline_drives_inverse_flag() {
    let mut skeleton = Skeleton::default();
    let leg = skeleton.push_bone(
        BoneKind::Jointed {
            start_length: Fixed::from_int(1),
            end_length: Fixed::from_int(1),
            inverse: false,
        },
        "",
    );
    let animation = Animation::default().with(
        Timeline::new(Target::Bone {
            bone: leg,
            property: BoneProperty::Inverse,
        })
        .with_frame(Keyframe::new(
            Frame::new(100),
            PropertyUpdate::ChangeTo(Value::Bool(true)),
        )),
    );
    let mut running = animation.start();
    assert!(!running.update(60, &mut skeleton));
    assert!(skeleton.bone(leg).unwrap().kind().is_inverse());
    assert!(running.update(60, &mut skeleton));
    assert!(skeleton.bone(leg).unwrap().kind().is_inverse());
}

#[test]
fn bone_target_timeline_sets_desired_end() {
    let mut skeleton = Skeleton::default();
    let leg = skeleton.push_bone(
        BoneKind::Jointed {
            start_length: Fixed::from_int(1),
            end_length: Fixed::from_int(1),
            inverse: false,
        },
        "",
    );
    let aim = Vector::new(Fixed::from_int(2), Rotation::zero());
    let animation = Animation::default().with(
        Timeline::new(Target::Bone {
            bone: leg,
            property: BoneProperty::Target,
        })
        .with_frame(Keyframe::new(
            Frame::zero(),
            PropertyUpdate::ChangeTo(Value::Vector(aim)),
        )),
    );
    let mut running = animation.start();
    running.update(10, &mut skeleton);
    assert_eq!(skeleton.bone(leg).unwrap().desired_end(), Some(aim));
}

#[test]
fn value_lerp_number_is_linear() {
    let a = Value::Number(Fixed::from_int(0));
    let b = Value::Number(Fixed::from_int(4));
    assert_eq!(
        a.lerp(b, Fixed::from_raw(16384)),
        Value::Number(Fixed::from_int(1))
    );
}

#[test]
fn value_lerp_bool_steps_at_half() {
    let a = Value::Bool(false);
    let b = Value::Bool(true);
    assert_eq!(a.lerp(b, Fixed::from_raw(16384)), Value::Bool(false));
    assert_eq!(a.lerp(b, Fixed::from_raw(32768)), Value::Bool(true));
}

#[test]
fn value_lerp_mismatch_is_invalid() {
    let a = Value::Number(Fixed::from_int(1));
    let b = Value::Bool(true);
    assert_eq!(a.lerp(b, Fixed::from_raw(32768)), Value::Invalid);
    assert_eq!(a.plus(b), Value::Invalid);
}

#[test]
fn value_plus_bool_is_xor() {
    assert_eq!(
        Value::Bool(true).plus(Value::Bool(true)),
        Value::Bool(false)
    );
    assert_eq!(
        Value::Bool(false).plus(Value::Bool(true)),
        Value::Bool(true)
    );
}

#[test]
fn value_plus_number_adds() {
    assert_eq!(
        Value::Number(Fixed::from_int(2)).plus(Value::Number(Fixed::from_int(3))),
        Value::Number(Fixed::from_int(5))
    );
}

#[test]
fn easing_quad_curves() {
    let half = Fixed::from_raw(32768);
    assert_eq!(
        funnybones::animation::ease(Easing::Linear, half),
        Fixed::from_raw(32768)
    );
    assert_eq!(
        funnybones::animation::ease(Easing::InQuad, half),
        Fixed::from_raw(16384)
    );
    assert_eq!(
        funnybones::animation::ease(Easing::OutQuad, half),
        Fixed::from_raw(49152)
    );
    assert_eq!(
        funnybones::animation::ease(Easing::InCubic, half),
        Fixed::from_raw(8192)
    );
    assert_eq!(
        funnybones::animation::ease(Easing::InQuart, half),
        Fixed::from_raw(4096)
    );
    assert_eq!(
        funnybones::animation::ease(Easing::InQuint, half),
        Fixed::from_raw(2048)
    );
}

#[test]
fn easing_curves_hit_their_endpoints() {
    let zero = Fixed::from_int(0);
    let one = Fixed::from_int(1);
    assert_eq!(funnybones::animation::ease(Easing::InSine, zero), zero);
    assert_eq!(funnybones::animation::ease(Easing::OutSine, one), one);
    assert_eq!(funnybones::animation::ease(Easing::InOutSine, one), one);
    assert_eq!(funnybones::animation::ease(Easing::InCirc, zero), zero);
    assert_eq!(funnybones::animation::ease(Easing::OutCirc, one), one);
    assert_eq!(funnybones::animation::ease(Easing::InBack, one), one);
    assert_eq!(funnybones::animation::ease(Easing::OutBack, zero), zero);
    assert_eq!(funnybones::animation::ease(Easing::OutBounce, zero), zero);
    assert_eq!(funnybones::animation::ease(Easing::InBounce, one), one);
    assert_eq!(funnybones::animation::ease(Easing::InOutQuart, one), one);
    assert_eq!(funnybones::animation::ease(Easing::InOutQuint, zero), zero);
    assert_eq!(funnybones::animation::ease(Easing::InOutCubic, one), one);
}

#[test]
fn insert_frame_replaces_on_equal_offset() {
    let mut skeleton = Skeleton::default();
    let root = skeleton.push_bone(BoneKind::Rigid { length: Fixed::from_int(1) }, "");
    let mut tl = Timeline::new(Target::Bone {
        bone: root,
        property: BoneProperty::Inverse,
    });
    tl.insert_frame(Keyframe::new(
        Frame::new(100),
        PropertyUpdate::ChangeTo(Value::Bool(false)),
    ));
    tl.insert_frame(Keyframe::new(
        Frame::new(50),
        PropertyUpdate::ChangeTo(Value::Bool(false)),
    ));
    tl.insert_frame(Keyframe::new(
        Frame::new(100),
        PropertyUpdate::ChangeTo(Value::Bool(true)),
    ));
    assert_eq!(tl.frames().len(), 2);
    assert_eq!(tl.frames()[0].frame_offset, Frame(50));
    assert_eq!(tl.frames()[1].frame_offset, Frame(100));
    assert_eq!(
        tl.frames()[1].update,
        PropertyUpdate::ChangeTo(Value::Bool(true))
    );
}

#[test]
fn set_frame_offset_collision_overwrites_and_drops() {
    let mut skeleton = Skeleton::default();
    let root = skeleton.push_bone(BoneKind::Rigid { length: Fixed::from_int(1) }, "");
    let mut tl = Timeline::new(Target::Bone {
        bone: root,
        property: BoneProperty::Inverse,
    });
    tl.insert_frame(
        Keyframe::new(Frame::zero(), PropertyUpdate::ChangeTo(Value::Bool(true)))
            .with_easing(Easing::InQuad),
    );
    tl.insert_frame(Keyframe::new(
        Frame::new(100),
        PropertyUpdate::ChangeTo(Value::Bool(false)),
    ));
    tl.insert_frame(Keyframe::new(
        Frame::new(200),
        PropertyUpdate::ChangeTo(Value::Bool(false)),
    ));
    tl.set_frame_offset(0, Frame::new(200));
    assert_eq!(tl.frames().len(), 2);
    assert_eq!(tl.frames()[0].frame_offset, Frame(100));
    assert_eq!(tl.frames()[1].frame_offset, Frame(200));
    assert_eq!(
        tl.frames()[1].update,
        PropertyUpdate::ChangeTo(Value::Bool(true))
    );
    assert_eq!(tl.frames()[1].easing, Easing::InQuad);
}

#[test]
fn set_frame_offset_relocates_preserving_order() {
    let mut skeleton = Skeleton::default();
    let root = skeleton.push_bone(BoneKind::Rigid { length: Fixed::from_int(1) }, "");
    let mut tl = Timeline::new(Target::Bone {
        bone: root,
        property: BoneProperty::Inverse,
    });
    tl.insert_frame(Keyframe::new(
        Frame::new(10),
        PropertyUpdate::ChangeTo(Value::Bool(true)),
    ));
    tl.insert_frame(Keyframe::new(
        Frame::new(20),
        PropertyUpdate::ChangeTo(Value::Bool(false)),
    ));
    tl.set_frame_offset(0, Frame::new(30));
    assert_eq!(tl.frames().len(), 2);
    assert_eq!(tl.frames()[0].frame_offset, Frame(20));
    assert_eq!(tl.frames()[1].frame_offset, Frame(30));
    assert_eq!(
        tl.frames()[1].update,
        PropertyUpdate::ChangeTo(Value::Bool(true))
    );
}

#[test]
fn variables_update_in_place() {
    let mut a = Animation::default();
    a.set_variable("speed", Fixed::from_int(2));
    a.set_variable("height", Fixed::from_int(7));
    a.set_variable("speed", Fixed::from_int(3));
    assert_eq!(a.variable("speed"), Some(Fixed::from_int(3)));
    assert_eq!(a.variable("height"), Some(Fixed::from_int(7)));
    assert_eq!(a.variable("width"), None);
    let b = Animation::default().with_variable("x", Fixed::from_int(1));
    assert_eq!(b.variable("x"), Some(Fixed::from_int(1)));
}

#[test]
fn animation_timeline_collection() {
    let mut skeleton = Skeleton::default();
    let root = skeleton.push_bone(BoneKind::Rigid { length: Fixed::from_int(1) }, "");
    let mk = |off: u32| {
        Timeline::new(Target::Bone {
            bone: root,
            property: BoneProperty::Inverse,
        })
        .with_frame(Keyframe::new(
            Frame::new(off),
            PropertyUpdate::ChangeTo(Value::Bool(true)),
        ))
    };
    let mut a = Animation::default();
    a.push(mk(1));
    a.push(mk(2));
    a.insert(1, mk(3));
    assert_eq!(a.len(), 3);
    let removed = a.remove(1);
    assert_eq!(removed.frames()[0].frame_offset, Frame(3));
    assert_eq!(a.len(), 2);
}

#[test]
fn update_with_unknown_target_reports_finished() {
    let mut skeleton = Skeleton::default();
    skeleton.push_bone(BoneKind::Rigid { length: Fixed::from_int(1) }, "");
    let animation = Animation::default().with(
        Timeline::new(Target::Joint {
            joint: funnybones::skeleton::JointId(40),
            property: JointProperty::Angle,
        })
        .with_frame(Keyframe::new(
            Frame::new(10),
            PropertyUpdate::ChangeTo(Value::Number(Fixed::from_int(1))),
        )),
    );
    let mut running = animation.start();
    assert!(!running.update(5, &mut skeleton));
    assert!(running.update(10, &mut skeleton));
}
