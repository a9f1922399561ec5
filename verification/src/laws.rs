//! Laws of the pose solver, stated and proved over its mathematical model:
//! what a solve pass can never change, that the root keeps the configured
//! translation, that toggling a jointed bone's bend direction mirrors the
//! midpoint about the aim ray without moving the end, that a second solve
//! pass reproduces the first bit for bit, and that label lookup favors the
//! most recently pushed entry.

use vstd::prelude::*;
use crate::fixed::{Fixed, fx, spec_abs, spec_minus, spec_neg, spec_plus, spec_times, spec_divide};
use crate::geometry::{Coordinate, Rotation, Vector, spec_coord_plus, spec_polar};
use crate::trig::spec_acos;
use crate::skeleton::{Bone, BoneAxis, BoneEnd, BoneId, BoneKind, Joint, JointId, SkeletonView, spec_find_bone};
use crate::solver::{
    count_false, lemma_count_false_update, next_generation, spec_determine_end, spec_run_joints,
    spec_solve, spec_solve_loop, spec_step_joint,
};

verus! {

/// Two bones agree on every solved field.
pub open spec fn solved_eq(x: Bone, y: Bone) -> bool {
    x.start == y.start && x.end == y.end && x.joint_pos == y.joint_pos && x.entry_angle
        == y.entry_angle
}

/// Two skeleton states agree on everything a solve pass reads apart from
/// generation stamps: arena sizes, bone kinds and aim targets, joint axes
/// and angles, and the adjacency table.
pub open spec fn inputs_match(a: SkeletonView, b: SkeletonView) -> bool {
    &&& b.bones.len() == a.bones.len()
    &&& forall|i: int|
        0 <= i < a.bones.len() ==> (#[trigger] b.bones[i]).kind == a.bones[i].kind
            && b.bones[i].desired_end == a.bones[i].desired_end
    &&& b.joints.len() == a.joints.len()
    &&& forall|j: int|
        0 <= j < a.joints.len() ==> (#[trigger] b.joints[j]).bone_a == a.joints[j].bone_a
            && b.joints[j].bone_b == a.joints[j].bone_b && b.joints[j].angle == a.joints[j].angle
    &&& b.connections == a.connections
}

/// The bones each state has already updated this pass correspond.
pub open spec fn stamps_match(a: SkeletonView, b: SkeletonView) -> bool {
    forall|i: int|
        0 <= i < a.bones.len() ==> (((#[trigger] a.bones[i]).generation == a.generation) <==> (
        (#[trigger] b.bones[i]).generation == b.generation))
}

/// What one traversal step can never change, and that bones already stamped
/// this pass are left exactly as they are.
proof fn lemma_step_joint_frame(
    v: SkeletonView,
    axis: BoneAxis,
    pos: Coordinate,
    rot: Rotation,
    jid: JointId,
)
    ensures
        ({
            let r = spec_step_joint(v, axis, pos, rot, jid).0;
            &&& r.bones.len() == v.bones.len()
            &&& r.joints.len() == v.joints.len()
            &&& r.connections == v.connections
            &&& r.generation == v.generation
            &&& forall|i: int|
                0 <= i < v.bones.len() && (#[trigger] v.bones[i]).generation == v.generation
                    ==> r.bones[i] == v.bones[i]
            &&& forall|i: int|
                0 <= i < v.bones.len() ==> (#[trigger] r.bones[i]) == v.bones[i]
                    || r.bones[i].generation == v.generation
            &&& forall|i: int|
                0 <= i < v.bones.len() ==> (#[trigger] r.bones[i]).id == v.bones[i].id
                    && r.bones[i].label == v.bones[i].label && r.bones[i].kind == v.bones[i].kind
                    && r.bones[i].desired_end == v.bones[i].desired_end
            &&& forall|j: int|
                0 <= j < v.joints.len() ==> (#[trigger] r.joints[j]).id == v.joints[j].id
                    && r.joints[j].label == v.joints[j].label && r.joints[j].bone_a
                    == v.joints[j].bone_a && r.joints[j].bone_b == v.joints[j].bone_b
                    && r.joints[j].angle == v.joints[j].angle
        }),
{
}

/// What processing one axis's joint list can never change.
proof fn lemma_run_joints_frame(
    v: SkeletonView,
    conns: Seq<JointId>,
    axis: BoneAxis,
    pos: Coordinate,
    rot: Rotation,
    stack: Seq<(BoneAxis, Coordinate, Rotation)>,
)
    ensures
        ({
            let r = spec_run_joints(v, conns, axis, pos, rot, stack).0;
            &&& r.bones.len() == v.bones.len()
            &&& r.joints.len() == v.joints.len()
            &&& r.connections == v.connections
            &&& r.generation == v.generation
            &&& forall|i: int|
                0 <= i < v.bones.len() && (#[trigger] v.bones[i]).generation == v.generation
                    ==> r.bones[i] == v.bones[i]
            &&& forall|i: int|
                0 <= i < v.bones.len() ==> (#[trigger] r.bones[i]) == v.bones[i]
                    || r.bones[i].generation == v.generation
            &&& forall|i: int|
                0 <= i < v.bones.len() ==> (#[trigger] r.bones[i]).id == v.bones[i].id
                    && r.bones[i].label == v.bones[i].label && r.bones[i].kind == v.bones[i].kind
                    && r.bones[i].desired_end == v.bones[i].desired_end
            &&& forall|j: int|
                0 <= j < v.joints.len() ==> (#[trigger] r.joints[j]).id == v.joints[j].id
                    && r.joints[j].label == v.joints[j].label && r.joints[j].bone_a
                    == v.joints[j].bone_a && r.joints[j].bone_b == v.joints[j].bone_b
                    && r.joints[j].angle == v.joints[j].angle
        }),
    decreases conns.len(),
{
    if conns.len() == 0 {
    } else {
        let sr = spec_step_joint(v, axis, pos, rot, conns.first());
        lemma_step_joint_frame(v, axis, pos, rot, conns.first());
        match sr.1 {
            Some(e) => {
                lemma_run_joints_frame(sr.0, conns.drop_first(), axis, pos, rot, stack.push(e));
            }
            None => {
                lemma_run_joints_frame(sr.0, conns.drop_first(), axis, pos, rot, stack);
            }
        }
    }
}

/// What the whole traversal loop can never change.
proof fn lemma_solve_loop_frame(
    v: SkeletonView,
    stack: Seq<(BoneAxis, Coordinate, Rotation)>,
    visited: Seq<bool>,
)
    ensures
        ({
            let r = spec_solve_loop(v, stack, visited);
            &&& r.bones.len() == v.bones.len()
            &&& r.joints.len() == v.joints.len()
            &&& r.connections == v.connections
            &&& r.generation == v.generation
            &&& forall|i: int|
                0 <= i < v.bones.len() && (#[trigger] v.bones[i]).generation == v.generation
                    ==> r.bones[i] == v.bones[i]
            &&& forall|i: int|
                0 <= i < v.bones.len() ==> (#[trigger] r.bones[i]) == v.bones[i]
                    || r.bones[i].generation == v.generation
            &&& forall|i: int|
                0 <= i < v.bones.len() ==> (#[trigger] r.bones[i]).id == v.bones[i].id
                    && r.bones[i].label == v.bones[i].label && r.bones[i].kind == v.bones[i].kind
                    && r.bones[i].desired_end == v.bones[i].desired_end
            &&& forall|j: int|
                0 <= j < v.joints.len() ==> (#[trigger] r.joints[j]).id == v.joints[j].id
                    && r.joints[j].label == v.joints[j].label && r.joints[j].bone_a
                    == v.joints[j].bone_a && r.joints[j].bone_b == v.joints[j].bone_b
                    && r.joints[j].angle == v.joints[j].angle
        }),
    decreases count_false(visited), stack.len(),
{
    if stack.len() == 0 {
    } else {
        let e = stack.last();
        let rest = stack.drop_last();
        let code = crate::skeleton::axis_code(e.0);
        if code < visited.len() && !visited[code] {
            let visited2 = visited.update(code, true);
            let conns = if code < v.connections.len() {
                v.connections[code]
            } else {
                Seq::empty()
            };
            let rr = spec_run_joints(v, conns, e.0, e.1, e.2, rest);
            lemma_run_joints_frame(v, conns, e.0, e.1, e.2, rest);
            lemma_count_false_update(visited, code);
            lemma_solve_loop_frame(rr.0, rr.1, visited2);
        } else {
            lemma_solve_loop_frame(v, rest, visited);
        }
    }
}

/// After `solve`, the root bone's start position still equals the
/// configured global translation, and every bone's identity, label, kind
/// and aim target, every joint's axes and angle, and the adjacency table
/// are exactly what they were.
pub proof fn lemma_solve_preserves_translation(v: SkeletonView)
    requires
        v.bones.len() > 0,
        v.joints.len() > 0,
    ensures
        spec_solve(v).bones.len() == v.bones.len(),
        spec_solve(v).bones[0].start == v.bones[0].start,
        forall|i: int|
            0 <= i < v.bones.len() ==> (#[trigger] spec_solve(v).bones[i]).id == v.bones[i].id
                && spec_solve(v).bones[i].label == v.bones[i].label && spec_solve(v).bones[i].kind
                == v.bones[i].kind && spec_solve(v).bones[i].desired_end
                == v.bones[i].desired_end,
        forall|j: int|
            0 <= j < v.joints.len() ==> (#[trigger] spec_solve(v).joints[j]).bone_a
                == v.joints[j].bone_a && spec_solve(v).joints[j].bone_b == v.joints[j].bone_b
                && spec_solve(v).joints[j].angle == v.joints[j].angle,
        spec_solve(v).connections == v.connections,
{
    let gen2 = next_generation(v.generation);
    let rot = v.joints[0].angle;
    let root = v.bones[0];
    let res = spec_determine_end(root.start, root.desired_end, rot, root.kind);
    let nroot = Bone {
        generation: gen2,
        entry_angle: rot,
        end: res.end,
        joint_pos: res.midpoint,
        ..root
    };
    let njoints = v.joints.update(0, Joint { calculated_position: root.start, ..v.joints[0] });
    let v2 = SkeletonView { bones: v.bones.update(0, nroot), joints: njoints, generation: gen2, ..v };
    let seed_a = (
        BoneAxis { bone: BoneId(0), end: BoneEnd::A },
        root.start,
        Rotation { radians: fx(spec_plus(rot.radians.raw as int, crate::trig::PI_RAW as int)) },
    );
    let seed_b = (BoneAxis { bone: BoneId(0), end: BoneEnd::B }, res.end, rot);
    let visited0 = Seq::new(v.connections.len(), |i: int| false);
    lemma_solve_loop_frame(v2, seq![seed_a, seed_b], visited0);
    assert(v2.bones[0].generation == v2.generation);
    assert(spec_solve(v) == spec_solve_loop(v2, seq![seed_a, seed_b], visited0));
}

/// For any aim target, toggling a jointed bone's bend direction leaves the
/// solved end unchanged, and the midpoint mirrors to the other side of the
/// aim ray: when the triangle is solvable, with interior angle alpha at the
/// start, one midpoint heads along the aim direction minus alpha and the
/// other along the aim direction plus alpha; in the degenerate fallback the
/// midpoint lies on the aim ray itself and the two poses coincide.
pub proof fn lemma_inverse_mirror(
    start: Coordinate,
    v: Vector,
    entry: Rotation,
    start_length: Fixed,
    end_length: Fixed,
)
    ensures
        ({
            let straight = BoneKind::Jointed { start_length, end_length, inverse: false };
            let mirrored = BoneKind::Jointed { start_length, end_length, inverse: true };
            let ra = spec_determine_end(start, Some(v), entry, straight);
            let rb = spec_determine_end(start, Some(v), entry, mirrored);
            let abs_dir = fx(spec_plus(v.direction.radians.raw as int, entry.radians.raw as int));
            let full = fx(spec_plus(start_length.raw as int, end_length.raw as int));
            let minimum = fx(spec_abs(spec_minus(start_length.raw as int, end_length.raw as int)));
            let clamped = if v.magnitude.raw < minimum.raw {
                minimum
            } else if v.magnitude.raw > full.raw {
                full
            } else {
                v.magnitude
            };
            let den = fx(
                spec_times(spec_times(131072, start_length.raw as int), clamped.raw as int),
            );
            let num = fx(
                spec_minus(
                    spec_plus(
                        spec_times(start_length.raw as int, start_length.raw as int),
                        spec_times(clamped.raw as int, clamped.raw as int),
                    ),
                    spec_times(end_length.raw as int, end_length.raw as int),
                ),
            );
            let c = fx(spec_divide(num.raw as int, den.raw as int));
            let solvable = den.raw != 0 && -65536 <= c.raw <= 65536;
            &&& rb.end == ra.end
            &&& solvable ==> {
                let alpha = fx(spec_acos(c.raw as int));
                &&& ra.midpoint == Some(
                    spec_coord_plus(
                        start,
                        spec_polar(
                            start_length,
                            Rotation {
                                radians: fx(spec_minus(abs_dir.raw as int, alpha.raw as int)),
                            },
                        ),
                    ),
                )
                &&& rb.midpoint == Some(
                    spec_coord_plus(
                        start,
                        spec_polar(
                            start_length,
                            Rotation {
                                radians: fx(
                                    spec_minus(abs_dir.raw as int, spec_neg(alpha.raw as int)),
                                ),
                            },
                        ),
                    ),
                )
            }
            &&& !solvable ==> rb.midpoint == ra.midpoint && ra.midpoint == Some(
                spec_coord_plus(start, spec_polar(start_length, Rotation { radians: abs_dir })),
            )
        }),
{
    reveal(spec_determine_end);
}

/// Two traversal states that agree on inputs and stamps take the same step:
/// the same frontier entry is produced, and every bone either stays exactly
/// as it was on both sides or ends with equal solved fields.
proof fn lemma_step_joint_par(
    va: SkeletonView,
    vb: SkeletonView,
    axis: BoneAxis,
    pos: Coordinate,
    rot: Rotation,
    jid: JointId,
)
    requires
        inputs_match(va, vb),
        stamps_match(va, vb),
    ensures
        ({
            let ra = spec_step_joint(va, axis, pos, rot, jid);
            let rb = spec_step_joint(vb, axis, pos, rot, jid);
            &&& inputs_match(ra.0, rb.0)
            &&& stamps_match(ra.0, rb.0)
            &&& rb.1 == ra.1
            &&& forall|i: int|
                0 <= i < va.bones.len() ==> ((#[trigger] ra.0.bones[i]) == va.bones[i]
                    && rb.0.bones[i] == vb.bones[i]) || solved_eq(ra.0.bones[i], rb.0.bones[i])
            &&& forall|j: int|
                0 <= j < va.joints.len() ==> ((#[trigger] ra.0.joints[j]) == va.joints[j]
                    && rb.0.joints[j] == vb.joints[j]) || ra.0.joints[j].calculated_position
                    == rb.0.joints[j].calculated_position
        }),
{
    let ra = spec_step_joint(va, axis, pos, rot, jid);
    let rb = spec_step_joint(vb, axis, pos, rot, jid);
    if jid.0 < va.joints.len() {
        let ja = va.joints[jid.0 as int];
        let jb = vb.joints[jid.0 as int];
        let oa = crate::skeleton::spec_other_axis(ja, axis);
        let ob = crate::skeleton::spec_other_axis(jb, axis);
        assert(ob == oa);
        if oa.bone.0 < va.bones.len() {
            let ba = va.bones[oa.bone.0 as int];
            let bb = vb.bones[oa.bone.0 as int];
            assert((ba.generation == va.generation) <==> (bb.generation == vb.generation));
            if ba.generation != va.generation {
                let entry = Rotation {
                    radians: fx(spec_plus(rot.radians.raw as int, ja.angle.radians.raw as int)),
                };
                assert(spec_determine_end(pos, bb.desired_end, entry, bb.kind)
                    == spec_determine_end(pos, ba.desired_end, entry, ba.kind));
            }
        }
    }
}

/// Processing one axis's joint list from corresponding states keeps the
/// states corresponding and grows both stacks identically.
proof fn lemma_run_joints_par(
    va: SkeletonView,
    vb: SkeletonView,
    conns: Seq<JointId>,
    axis: BoneAxis,
    pos: Coordinate,
    rot: Rotation,
    stack: Seq<(BoneAxis, Coordinate, Rotation)>,
)
    requires
        inputs_match(va, vb),
        stamps_match(va, vb),
    ensures
        ({
            let ra = spec_run_joints(va, conns, axis, pos, rot, stack);
            let rb = spec_run_joints(vb, conns, axis, pos, rot, stack);
            &&& inputs_match(ra.0, rb.0)
            &&& stamps_match(ra.0, rb.0)
            &&& rb.1 == ra.1
            &&& forall|i: int|
                0 <= i < va.bones.len() ==> ((#[trigger] ra.0.bones[i]) == va.bones[i]
                    && rb.0.bones[i] == vb.bones[i]) || solved_eq(ra.0.bones[i], rb.0.bones[i])
            &&& forall|j: int|
                0 <= j < va.joints.len() ==> ((#[trigger] ra.0.joints[j]) == va.joints[j]
                    && rb.0.joints[j] == vb.joints[j]) || ra.0.joints[j].calculated_position
                    == rb.0.joints[j].calculated_position
        }),
    decreases conns.len(),
{
    if conns.len() == 0 {
    } else {
        let sa = spec_step_joint(va, axis, pos, rot, conns.first());
        let sb = spec_step_joint(vb, axis, pos, rot, conns.first());
        lemma_step_joint_par(va, vb, axis, pos, rot, conns.first());
        lemma_step_joint_frame(va, axis, pos, rot, conns.first());
        lemma_step_joint_frame(vb, axis, pos, rot, conns.first());
        let stack2 = match sa.1 {
            Some(e) => stack.push(e),
            None => stack,
        };
        lemma_run_joints_par(sa.0, sb.0, conns.drop_first(), axis, pos, rot, stack2);
        let ra = spec_run_joints(va, conns, axis, pos, rot, stack);
        let rb = spec_run_joints(vb, conns, axis, pos, rot, stack);
        assert forall|i: int| 0 <= i < va.bones.len() implies ((#[trigger] ra.0.bones[i])
            == va.bones[i] && rb.0.bones[i] == vb.bones[i]) || solved_eq(
            ra.0.bones[i],
            rb.0.bones[i],
        ) by {
            assert((sa.0.bones[i] == va.bones[i] && sb.0.bones[i] == vb.bones[i]) || solved_eq(
                sa.0.bones[i],
                sb.0.bones[i],
            ));
            assert((ra.0.bones[i] == sa.0.bones[i] && rb.0.bones[i] == sb.0.bones[i]) || solved_eq(
                ra.0.bones[i],
                rb.0.bones[i],
            ));
            if !(ra.0.bones[i] == sa.0.bones[i] && rb.0.bones[i] == sb.0.bones[i]) {
            } else {
                if !(sa.0.bones[i] == va.bones[i] && sb.0.bones[i] == vb.bones[i]) {
                    assert(solved_eq(sa.0.bones[i], sb.0.bones[i]));
                }
            }
        }
        assert forall|j: int| 0 <= j < va.joints.len() implies ((#[trigger] ra.0.joints[j])
            == va.joints[j] && rb.0.joints[j] == vb.joints[j]) || ra.0.joints[j].calculated_position
            == rb.0.joints[j].calculated_position by {
            assert((sa.0.joints[j] == va.joints[j] && sb.0.joints[j] == vb.joints[j])
                || sa.0.joints[j].calculated_position == sb.0.joints[j].calculated_position);
            assert((ra.0.joints[j] == sa.0.joints[j] && rb.0.joints[j] == sb.0.joints[j])
                || ra.0.joints[j].calculated_position == rb.0.joints[j].calculated_position);
        }
    }
}

/// The whole traversal loop, run from corresponding states over the same
/// frontier, keeps the states corresponding.
proof fn lemma_solve_loop_par(
    va: SkeletonView,
    vb: SkeletonView,
    stack: Seq<(BoneAxis, Coordinate, Rotation)>,
    visited: Seq<bool>,
)
    requires
        inputs_match(va, vb),
        stamps_match(va, vb),
    ensures
        ({
            let ra = spec_solve_loop(va, stack, visited);
            let rb = spec_solve_loop(vb, stack, visited);
            &&& inputs_match(ra, rb)
            &&& stamps_match(ra, rb)
            &&& forall|i: int|
                0 <= i < va.bones.len() ==> ((#[trigger] ra.bones[i]) == va.bones[i] && rb.bones[i]
                    == vb.bones[i]) || solved_eq(ra.bones[i], rb.bones[i])
            &&& forall|j: int|
                0 <= j < va.joints.len() ==> ((#[trigger] ra.joints[j]) == va.joints[j]
                    && rb.joints[j] == vb.joints[j]) || ra.joints[j].calculated_position
                    == rb.joints[j].calculated_position
        }),
    decreases count_false(visited), stack.len(),
{
    if stack.len() == 0 {
    } else {
        let e = stack.last();
        let rest = stack.drop_last();
        let code = crate::skeleton::axis_code(e.0);
        if code < visited.len() && !visited[code] {
            let visited2 = visited.update(code, true);
            let conns = if code < va.connections.len() {
                va.connections[code]
            } else {
                Seq::empty()
            };
            let rja = spec_run_joints(va, conns, e.0, e.1, e.2, rest);
            let rjb = spec_run_joints(vb, conns, e.0, e.1, e.2, rest);
            lemma_run_joints_par(va, vb, conns, e.0, e.1, e.2, rest);
            lemma_run_joints_frame(va, conns, e.0, e.1, e.2, rest);
            lemma_run_joints_frame(vb, conns, e.0, e.1, e.2, rest);
            lemma_count_false_update(visited, code);
            lemma_solve_loop_par(rja.0, rjb.0, rja.1, visited2);
            lemma_solve_loop_frame(rja.0, rja.1, visited2);
            lemma_solve_loop_frame(rjb.0, rjb.1, visited2);
            let ra = spec_solve_loop(va, stack, visited);
            let rb = spec_solve_loop(vb, stack, visited);
            assert forall|i: int| 0 <= i < va.bones.len() implies ((#[trigger] ra.bones[i])
                == va.bones[i] && rb.bones[i] == vb.bones[i]) || solved_eq(
                ra.bones[i],
                rb.bones[i],
            ) by {
                assert((rja.0.bones[i] == va.bones[i] && rjb.0.bones[i] == vb.bones[i])
                    || solved_eq(rja.0.bones[i], rjb.0.bones[i]));
                assert((ra.bones[i] == rja.0.bones[i] && rb.bones[i] == rjb.0.bones[i])
                    || solved_eq(ra.bones[i], rb.bones[i]));
            }
            assert forall|j: int| 0 <= j < va.joints.len() implies ((#[trigger] ra.joints[j])
                == va.joints[j] && rb.joints[j] == vb.joints[j]) || ra.joints[
                j].calculated_position == rb.joints[j].calculated_position by {
                assert((rja.0.joints[j] == va.joints[j] && rjb.0.joints[j] == vb.joints[j])
                    || rja.0.joints[j].calculated_position == rjb.0.joints[j].calculated_position);
                assert((ra.joints[j] == rja.0.joints[j] && rb.joints[j] == rjb.0.joints[j])
                    || ra.joints[j].calculated_position == rb.joints[j].calculated_position);
            }
        } else {
            lemma_solve_loop_par(va, vb, rest, visited);
        }
    }
}

/// Solving twice in a row with no property changes in between yields
/// identical solved results: after the second pass every bone's solved
/// start, end, midpoint and entry angle, and every joint's calculated
/// position, are exactly what the first pass produced. The requires
/// excludes only skeletons whose bones already carry one of the next two
/// pass stamps, which cannot arise without wrapping the 64-bit pass
/// counter.
pub proof fn lemma_solve_deterministic(v: SkeletonView)
    requires
        v.bones.len() > 0,
        v.joints.len() > 0,
        forall|i: int|
            0 <= i < v.bones.len() ==> (#[trigger] v.bones[i]).generation != next_generation(
                v.generation,
            ),
        forall|i: int|
            0 <= i < v.bones.len() ==> (#[trigger] v.bones[i]).generation != next_generation(
                next_generation(v.generation),
            ),
    ensures
        ({
            let w = spec_solve(v);
            let w2 = spec_solve(w);
            &&& w2.bones.len() == w.bones.len()
            &&& w2.joints.len() == w.joints.len()
            &&& forall|i: int|
                0 <= i < w.bones.len() ==> solved_eq(#[trigger] w2.bones[i], w.bones[i])
            &&& forall|j: int|
                0 <= j < w.joints.len() ==> (#[trigger] w2.joints[j]).calculated_position
                    == w.joints[j].calculated_position
        }),
{
    let g1 = next_generation(v.generation);
    let g2 = next_generation(g1);
    assert(g1 != g2);
    let rot = v.joints[0].angle;
    let root = v.bones[0];
    let res = spec_determine_end(root.start, root.desired_end, rot, root.kind);
    let nroot = Bone {
        generation: g1,
        entry_angle: rot,
        end: res.end,
        joint_pos: res.midpoint,
        ..root
    };
    let njoints = v.joints.update(0, Joint { calculated_position: root.start, ..v.joints[0] });
    let va2 = SkeletonView { bones: v.bones.update(0, nroot), joints: njoints, generation: g1, ..v };
    let seed_a = (
        BoneAxis { bone: BoneId(0), end: BoneEnd::A },
        root.start,
        Rotation { radians: fx(spec_plus(rot.radians.raw as int, crate::trig::PI_RAW as int)) },
    );
    let seed_b = (BoneAxis { bone: BoneId(0), end: BoneEnd::B }, res.end, rot);
    let seeds = seq![seed_a, seed_b];
    let visited0 = Seq::new(v.connections.len(), |i: int| false);
    let w = spec_solve(v);
    assert(w == spec_solve_loop(va2, seeds, visited0));
    lemma_solve_loop_frame(va2, seeds, visited0);
    assert(w.bones[0] == nroot);
    assert(w.joints[0].angle == rot);
    let rot_b = w.joints[0].angle;
    let root_b = w.bones[0];
    let res_b = spec_determine_end(root_b.start, root_b.desired_end, rot_b, root_b.kind);
    assert(res_b == res);
    let nroot_b = Bone {
        generation: g2,
        entry_angle: rot_b,
        end: res_b.end,
        joint_pos: res_b.midpoint,
        ..root_b
    };
    let njoints_b = w.joints.update(0, Joint { calculated_position: root_b.start, ..w.joints[0] });
    let vb2 = SkeletonView {
        bones: w.bones.update(0, nroot_b),
        joints: njoints_b,
        generation: g2,
        ..w
    };
    let w2 = spec_solve(w);
    assert(w.generation == g1);
    assert(w.connections == v.connections);
    assert(visited0 =~= Seq::new(w.connections.len(), |i: int| false));
    assert(w2 == spec_solve_loop(vb2, seeds, visited0));
    assert(inputs_match(va2, vb2)) by {
        assert forall|i: int| 0 <= i < va2.bones.len() implies (#[trigger] vb2.bones[i]).kind
            == va2.bones[i].kind && vb2.bones[i].desired_end == va2.bones[i].desired_end by {
            if i > 0 {
                assert(w.bones[i].kind == va2.bones[i].kind && w.bones[i].desired_end
                    == va2.bones[i].desired_end);
            }
        }
    }
    assert(stamps_match(va2, vb2)) by {
        assert forall|i: int| 0 <= i < va2.bones.len() implies (((#[trigger] va2.bones[
        i]).generation == va2.generation) <==> ((#[trigger] vb2.bones[i]).generation
            == vb2.generation)) by {
            if i > 0 {
                assert(va2.bones[i] == v.bones[i]);
                assert(va2.bones[i].generation != g1);
                assert(vb2.bones[i] == w.bones[i]);
                assert(w.bones[i] == va2.bones[i] || w.bones[i].generation == g1);
                assert(vb2.bones[i].generation != g2);
            }
        }
    }
    lemma_solve_loop_par(va2, vb2, seeds, visited0);
    lemma_solve_loop_frame(vb2, seeds, visited0);
    assert forall|i: int| 0 <= i < w.bones.len() implies solved_eq(
        #[trigger] w2.bones[i],
        w.bones[i],
    ) by {
        assert((w.bones[i] == va2.bones[i] && w2.bones[i] == vb2.bones[i]) || solved_eq(
            w.bones[i],
            w2.bones[i],
        ));
        if w.bones[i] == va2.bones[i] && w2.bones[i] == vb2.bones[i] {
            if i == 0 {
                assert(solved_eq(vb2.bones[0], nroot));
            } else {
                assert(vb2.bones[i] == w.bones[i]);
            }
        }
    }
    assert forall|j: int| 0 <= j < w.joints.len() implies (#[trigger] w2.joints[
    j]).calculated_position == w.joints[j].calculated_position by {
        assert((w.joints[j] == va2.joints[j] && w2.joints[j] == vb2.joints[j]) || w.joints[
        j].calculated_position == w2.joints[j].calculated_position);
        if w.joints[j] == va2.joints[j] && w2.joints[j] == vb2.joints[j] {
            if j == 0 {
                assert(va2.joints[0].calculated_position == root.start);
                assert(vb2.joints[0].calculated_position == root_b.start);
            } else {
                assert(vb2.joints[j] == w.joints[j]);
            }
        }
    }
}

/// Label lookup returns the most recently pushed bone carrying a non-empty
/// label: if the bone at `i` carries the label and no later bone does, the
/// lookup yields exactly that bone's id.
pub proof fn lemma_find_bone_latest(bones: Seq<Bone>, l: Seq<char>, i: int)
    requires
        0 <= i < bones.len(),
        bones[i].label@ == l,
        l.len() > 0,
        forall|j: int| i < j < bones.len() ==> (#[trigger] bones[j]).label@ != l,
    ensures
        spec_find_bone(bones, l) == Some(bones[i].id),
    decreases bones.len(),
{
    if i == bones.len() - 1 {
    } else {
        assert(bones.last().label@ != l);
        assert forall|j: int| i < j < bones.drop_last().len() implies (#[trigger] bones.drop_last(
        )[j]).label@ != l by {
            assert(bones.drop_last()[j] == bones[j]);
        }
        assert(bones.drop_last()[i] == bones[i]);
        lemma_find_bone_latest(bones.drop_last(), l, i);
    }
}

} // verus!
