use funnybones::fixed::Fixed;
use funnybones::geometry::{Coordinate, Rotation, Vector};
use funnybones::parts::{AssembleError, BonePart, JointPart};
use funnybones::skeleton::{BoneAxis, BoneEnd, BoneId, BoneKind, Joint, JointId, Skeleton};

fn as_f32(v: Fixed) -> f32 {
    v.raw as f32 / 65536.0
}

fn close(a: f32, b: f32) {
    assert!((a - b).abs() < 0.01, "{a} != {b}");
}

#[test]
fn rotation() {
    assert_eq!(
        as_f32(
            Rotation::degrees(Fixed::from_int(90))
                .plus(Rotation::degrees(Fixed::from_int(180)))
                .clamped()
                .to_degrees()
        )
        .round() as i32,
        270,
    );
    assert_eq!(
        as_f32(
            Rotation::degrees(Fixed::from_int(90))
                .plus(Rotation::degrees(Fixed::from_int(-180)))
                .clamped()
                .to_degrees()
        )
        .round() as i32,
        270,
    );
}

#[test]
fn roundtrip() {
    let mut s = Skeleton::default();
    let spine = s.push_bone(BoneKind::Rigid { length: Fixed::from_int(1) }, "spine");
    let other = s.push_bone(
        BoneKind::Jointed {
            start_length: Fixed::from_int(2),
            end_length: Fixed::from_int(3),
            inverse: true,
        },
        "",
    );
    let joint = s.push_joint(Joint::new(
        Rotation::radians(Fixed::from_int(0)),
        spine.axis_a(),
        other.axis_b(),
    ));
    let (bones, joints) = s.to_parts();
    let deserialized = Skeleton::from_parts(&bones, &joints).unwrap();
    assert_eq!(deserialized.bone(spine).unwrap().label(), "spine");
    assert_eq!(deserialized.bone(other).unwrap().label(), "");
    assert_eq!(
        deserialized.joint(joint).unwrap().angle(),
        Rotation::radians(Fixed::from_int(0))
    );
}

#[test]
fn from_parts_rejects_unknown_axis() {
    let bones = vec![BonePart {
        kind: BoneKind::Rigid { length: Fixed::from_int(1) },
        label: String::new(),
        target: None,
    }];
    let joints = vec![JointPart {
        from: BoneId(0).axis_b(),
        to: BoneId(5).axis_a(),
        angle: Rotation::zero(),
        label: String::new(),
    }];
    assert_eq!(
        Skeleton::from_parts(&bones, &joints).unwrap_err(),
        AssembleError::UnknownAxis
    );
}

#[test]
fn from_parts_rejects_too_many_bones() {
    let mut bones = Vec::new();
    for _ in 0..65537 {
        bones.push(BonePart {
            kind: BoneKind::Rigid { length: Fixed::from_int(1) },
            label: String::new(),
            target: None,
        });
    }
    let joints = Vec::new();
    assert_eq!(
        Skeleton::from_parts(&bones, &joints).unwrap_err(),
        AssembleError::TooManyBones
    );
}

#[test]
fn find_bone_by_label_returns_most_recent() {
    let mut s = Skeleton::default();
    let _first = s.push_bone(BoneKind::Rigid { length: Fixed::from_int(1) }, "leg");
    let second = s.push_bone(BoneKind::Rigid { length: Fixed::from_int(2) }, "leg");
    assert_eq!(s.find_bone_by_label("leg"), Some(second));
    assert_eq!(s.find_bone_by_label("arm"), None);
    assert_eq!(s.find_bone_by_label(""), None);
}

#[test]
fn find_joint_by_label_returns_most_recent() {
    let mut s = Skeleton::default();
    let b0 = s.push_bone(BoneKind::Rigid { length: Fixed::from_int(1) }, "");
    let b1 = s.push_bone(BoneKind::Rigid { length: Fixed::from_int(1) }, "");
    let b2 = s.push_bone(BoneKind::Rigid { length: Fixed::from_int(1) }, "");
    let _j0 = s.push_joint(Joint::new(Rotation::zero(), b0.axis_b(), b1.axis_a()).with_label("knee"));
    let j1 = s.push_joint(Joint::new(Rotation::zero(), b1.axis_b(), b2.axis_a()).with_label("knee"));
    assert_eq!(s.find_joint_by_label("knee"), Some(j1));
    assert_eq!(s.find_joint_by_label("hip"), None);
}

#[test]
fn connections_are_registered_under_both_axes() {
    let mut s = Skeleton::default();
    let b0 = s.push_bone(BoneKind::Rigid { length: Fixed::from_int(1) }, "");
    let b1 = s.push_bone(BoneKind::Rigid { length: Fixed::from_int(1) }, "");
    let j = s.push_joint(Joint::new(Rotation::zero(), b0.axis_b(), b1.axis_a()));
    assert_eq!(s.connections_to(b0.axis_b()).unwrap().as_slice(), &[j]);
    assert_eq!(s.connections_to(b1.axis_a()).unwrap().as_slice(), &[j]);
    assert!(s.connections_to(b1.axis_b()).is_none());
}

#[test]
fn translation_survives_solve() {
    let mut s = Skeleton::default();
    let root = s.push_bone(BoneKind::Rigid { length: Fixed::from_int(2) }, "");
    s.set_translation(Coordinate::new(Fixed::from_int(7), Fixed::from_int(-3)));
    s.solve();
    assert_eq!(
        s.translation(),
        Coordinate::new(Fixed::from_int(7), Fixed::from_int(-3))
    );
    assert_eq!(
        s.bone(root).unwrap().start(),
        Coordinate::new(Fixed::from_int(7), Fixed::from_int(-3))
    );
}

#[test]
fn rigid_bone_extends_along_entry_angle() {
    let mut s = Skeleton::default();
    let root = s.push_bone(BoneKind::Rigid { length: Fixed::from_int(2) }, "");
    s.solve();
    let end = s.bone(root).unwrap().end();
    close(as_f32(end.x), 2.0);
    close(as_f32(end.y), 0.0);
}

#[test]
fn unreachable_target_clamps_to_full_length() {
    let mut s = Skeleton::default();
    let leg = s.push_bone(
        BoneKind::Jointed {
            start_length: Fixed::from_raw(98304),
            end_length: Fixed::from_raw(98304),
            inverse: false,
        },
        "",
    );
    s.bone_mut(leg)
        .unwrap()
        .set_desired_end(Some(Vector::new(Fixed::from_int(10), Rotation::zero())));
    s.solve();
    let b = s.bone(leg).unwrap();
    assert_eq!(
        b.end(),
        Coordinate::new(Fixed::from_int(3), Fixed::from_int(0)),
        "the end must sit exactly at full reach along the requested direction"
    );
    assert_eq!(
        b.solved_joint(),
        Some(Coordinate::new(Fixed::from_raw(98304), Fixed::from_int(0))),
        "a fully extended chain keeps its midpoint on the aim ray"
    );
}

#[test]
fn short_target_clamps_to_minimum_reach() {
    let mut s = Skeleton::default();
    let arm = s.push_bone(
        BoneKind::Jointed {
            start_length: Fixed::from_int(1),
            end_length: Fixed::from_int(3),
            inverse: false,
        },
        "",
    );
    s.bone_mut(arm)
        .unwrap()
        .set_desired_end(Some(Vector::new(Fixed::from_raw(32768), Rotation::zero())));
    s.solve();
    let b = s.bone(arm).unwrap();
    assert_eq!(
        b.end(),
        Coordinate::new(Fixed::from_int(2), Fixed::from_int(0)),
        "the end must sit exactly at the minimum-reach band edge"
    );
    assert_eq!(
        b.solved_joint(),
        Some(Coordinate::new(Fixed::from_int(-1), Fixed::from_int(0))),
        "a fully folded chain points its first segment backwards"
    );
}

#[test]
fn inverse_mirrors_midpoint_and_keeps_end() {
    let mut straight = Skeleton::default();
    let a = straight.push_bone(
        BoneKind::Jointed {
            start_length: Fixed::from_raw(98304),
            end_length: Fixed::from_raw(98304),
            inverse: false,
        },
        "",
    );
    straight
        .bone_mut(a)
        .unwrap()
        .set_desired_end(Some(Vector::new(Fixed::from_int(2), Rotation::zero())));
    straight.solve();

    let mut mirrored = Skeleton::default();
    let b = mirrored.push_bone(
        BoneKind::Jointed {
            start_length: Fixed::from_raw(98304),
            end_length: Fixed::from_raw(98304),
            inverse: true,
        },
        "",
    );
    mirrored
        .bone_mut(b)
        .unwrap()
        .set_desired_end(Some(Vector::new(Fixed::from_int(2), Rotation::zero())));
    mirrored.solve();

    let ba = straight.bone(a).unwrap();
    let bb = mirrored.bone(b).unwrap();
    assert_eq!(ba.end(), bb.end());
    let ma = ba.solved_joint().unwrap();
    let mb = bb.solved_joint().unwrap();
    close(as_f32(ma.x), as_f32(mb.x));
    close(as_f32(ma.y), -as_f32(mb.y));
    assert!(as_f32(ma.y).abs() > 0.1, "chain should actually bend");
}

#[test]
fn solve_twice_is_bit_identical() {
    let mut s = Skeleton::default();
    let spine = s.push_bone(BoneKind::Rigid { length: Fixed::from_int(3) }, "spine");
    let leg = s.push_bone(
        BoneKind::Jointed {
            start_length: Fixed::from_raw(98304),
            end_length: Fixed::from_raw(98304),
            inverse: true,
        },
        "leg",
    );
    s.push_joint(Joint::new(
        Rotation::degrees(Fixed::from_int(90)),
        spine.axis_b(),
        leg.axis_a(),
    ));
    s.bone_mut(leg)
        .unwrap()
        .set_desired_end(Some(Vector::new(Fixed::from_int(2), Rotation::degrees(Fixed::from_int(45)))));
    s.set_translation(Coordinate::new(Fixed::from_int(1), Fixed::from_int(1)));
    s.set_rotation(Rotation::degrees(Fixed::from_int(30)));
    s.solve();
    let first: Vec<(Coordinate, Coordinate, Option<Coordinate>, Rotation)> = s
        .bones()
        .iter()
        .map(|b| (b.start(), b.end(), b.solved_joint(), b.entry_angle()))
        .collect();
    s.solve();
    let second: Vec<(Coordinate, Coordinate, Option<Coordinate>, Rotation)> = s
        .bones()
        .iter()
        .map(|b| (b.start(), b.end(), b.solved_joint(), b.entry_angle()))
        .collect();
    assert_eq!(first, second);
}

#[test]
fn magnitude_of_three_four_is_five() {
    let c = Coordinate::new(Fixed::from_int(3), Fixed::from_int(4));
    assert_eq!(c.magnitude(), Fixed::from_int(5));
}

#[test]
fn sqrt_of_four_is_two() {
    assert_eq!(Fixed::from_int(4).sqrt(), Fixed::from_int(2));
}

#[test]
fn trig_sanity() {
    let zero = Fixed::from_int(0);
    assert_eq!(zero.sin().raw, 0);
    assert_eq!(zero.cos().raw, 65536);
    let half_pi = Fixed::from_raw(102943);
    assert_eq!(half_pi.sin().raw, 65536);
    let q = funnybones::trig::atan2_fx(Fixed::from_int(1), Fixed::from_int(1));
    close(q.raw as f32 / 65536.0, core::f32::consts::FRAC_PI_4);
}

#[test]
fn axis_helpers() {
    let id = BoneId(4);
    assert_eq!(id.axis_a(), BoneAxis { bone: id, end: BoneEnd::A });
    assert_eq!(id.axis_b(), BoneAxis { bone: id, end: BoneEnd::B });
    assert_eq!(id.axis_a().inverse(), id.axis_b());
    assert_eq!(BoneEnd::A.inverse(), BoneEnd::B);
    assert_eq!(BoneEnd::B.inverse(), BoneEnd::A);
    assert_eq!(id.index(), 4);
    assert_eq!(JointId(9).index(), 9);
}

#[test]
fn full_length_sums_segments() {
    let k = BoneKind::Jointed {
        start_length: Fixed::from_raw(98304),
        end_length: Fixed::from_raw(98304),
        inverse: false,
    };
    assert_eq!(k.full_length(), Fixed::from_int(3));
    assert!(!k.is_inverse());
    let mut k2 = k;
    k2.set_inverse(true);
    assert!(k2.is_inverse());
    assert!(!BoneKind::Rigid { length: Fixed::from_int(1) }.is_inverse());
}
