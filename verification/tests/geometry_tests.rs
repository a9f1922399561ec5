use funnybones::animation::Value;
use funnybones::fixed::Fixed;
use funnybones::geometry::{Coordinate, Rotation, Vector};
use funnybones::skeleton::{BoneKind, Joint, Skeleton};

fn to_f32(v: Fixed) -> f32 {
    v.raw as f32 / 65536.0
}

fn near(a: f32, b: f32) {
    assert!((a - b).abs() < 0.01, "{a} != {b}");
}

#[test]
fn chain_with_right_angle_joint() {
    let mut s = Skeleton::default();
    let root = s.push_bone(BoneKind::Rigid { length: Fixed::from_int(1) }, "");
    let child = s.push_bone(BoneKind::Rigid { length: Fixed::from_int(1) }, "");
    s.push_joint(Joint::new(
        Rotation::degrees(Fixed::from_int(90)),
        root.axis_b(),
        child.axis_a(),
    ));
    s.solve();
    let r = s.bone(root).unwrap();
    near(to_f32(r.end().x), 1.0);
    near(to_f32(r.end().y), 0.0);
    let c = s.bone(child).unwrap();
    assert_eq!(c.start(), r.end());
    near(to_f32(c.end().x), 1.0);
    near(to_f32(c.end().y), 1.0);
}

#[test]
fn joint_position_records_inbound_point() {
    let mut s = Skeleton::default();
    let root = s.push_bone(BoneKind::Rigid { length: Fixed::from_int(2) }, "");
    let child = s.push_bone(BoneKind::Rigid { length: Fixed::from_int(1) }, "");
    let j = s.push_joint(Joint::new(Rotation::zero(), root.axis_b(), child.axis_a()));
    s.solve();
    assert_eq!(
        s.joint(j).unwrap().calculated_position,
        s.bone(root).unwrap().end()
    );
}

#[test]
fn atan2_covers_all_quadrants() {
    let one = Fixed::from_int(1);
    let neg = Fixed::from_int(-1);
    let q1 = funnybones::trig::atan2_fx(one, one);
    let q2 = funnybones::trig::atan2_fx(one, neg);
    let q3 = funnybones::trig::atan2_fx(neg, neg);
    let q4 = funnybones::trig::atan2_fx(neg, one);
    near(to_f32(q1), core::f32::consts::FRAC_PI_4);
    near(to_f32(q2), 3.0 * core::f32::consts::FRAC_PI_4);
    near(to_f32(q3), -3.0 * core::f32::consts::FRAC_PI_4);
    near(to_f32(q4), -core::f32::consts::FRAC_PI_4);
}

#[test]
fn vector_to_recovers_offset() {
    let a = Coordinate::new(Fixed::from_int(1), Fixed::from_int(1));
    let b = Coordinate::new(Fixed::from_int(4), Fixed::from_int(5));
    let v = a.vector_to(b);
    assert_eq!(v.magnitude, Fixed::from_int(5));
    near(to_f32(v.direction.to_radians()), (4.0f32 / 3.0).atan());
}

#[test]
fn polar_offset_roundtrip() {
    let v = Vector::new(Fixed::from_int(2), Rotation::degrees(Fixed::from_int(30)));
    let c = v.to_offset();
    near(to_f32(c.x), 2.0 * (30.0f32).to_radians().cos());
    near(to_f32(c.y), 2.0 * (30.0f32).to_radians().sin());
}

#[test]
fn vector_lerp_takes_shortest_arc() {
    let a = Value::Vector(Vector::new(
        Fixed::from_int(1),
        Rotation::radians(Fixed::from_raw(399770)),
    ));
    let b = Value::Vector(Vector::new(
        Fixed::from_int(1),
        Rotation::radians(Fixed::from_raw(6554)),
    ));
    let mid = a.lerp(b, Fixed::from_raw(32768));
    match mid {
        Value::Vector(v) => {
            let dir = to_f32(v.direction.to_radians());
            assert!(
                !(2.0..4.5).contains(&dir),
                "interpolation must not swing the long way around: {dir}"
            );
        }
        other => panic!("expected a vector, got {other:?}"),
    }
}

#[test]
fn rotation_clamped_wraps_into_band() {
    let r = Rotation::radians(Fixed::from_int(-1)).clamped();
    near(to_f32(r.to_radians()), core::f32::consts::TAU - 1.0);
    let s = Rotation::radians(Fixed::from_int(7)).clamped();
    near(to_f32(s.to_radians()), 7.0 - core::f32::consts::TAU);
}
