//! The pose solver: a full-repose traversal that propagates position and
//! orientation from the root bone through the joint graph, resolving
//! two-link chains by triangulation when an aim target is set.

use vstd::prelude::*;
use vstd::pervasive::VecAdditionalExecFns;
use crate::fixed::{Fixed, fx, spec_abs, spec_minus, spec_plus, spec_times, spec_divide};
use crate::geometry::{Coordinate, Rotation, Vector, polar, spec_coord_plus, spec_coord_minus, spec_polar};
use crate::trig::{acos_fx, atan2_fx, spec_acos, spec_atan2};
use crate::skeleton::{
    axis_code, axis_code_of, Bone, BoneAxis, BoneEnd, BoneId, BoneKind, Joint, JointId, Skeleton,
    SkeletonView, spec_other_axis, wf_view, view_parts,
};

verus! {

/// The solved geometry of one bone: its far end, its midpoint (for jointed
/// bones), and the orientation handed to the next link in the chain.
#[derive(Clone, Copy, PartialEq, Eq, Structural, Debug)]
pub struct Resolved {
    /// The solved end position.
    pub end: Coordinate,
    /// The solved midpoint; present for jointed bones only.
    pub midpoint: Option<Coordinate>,
    /// The orientation the traversal continues with past this bone.
    pub exit: Rotation,
}

/// The orientation past a jointed bone: the direction of its final segment
/// (midpoint to end) plus a fixed quarter-turn correction required by the
/// orientation convention of the rest of the system.
pub open spec fn spec_jointed_exit(mid: Coordinate, end: Coordinate) -> Rotation {
    let d = spec_coord_minus(end, mid);
    Rotation {
        radians: fx(
            spec_plus(spec_atan2(d.y.raw as int, d.x.raw as int), crate::trig::HALF_PI_RAW as int),
        ),
    }
}

/// The midpoint of a jointed bone aimed along `hyp_angle` at distance
/// `distance`: the triangle with sides `first`, `second` and `distance` is
/// solved by the law of cosines, and the hypotenuse direction is rotated by
/// plus or minus the interior angle at the start, the sign chosen by
/// `inverse`. A degenerate triangle falls back to an unbent first segment.
pub open spec fn spec_third_point(
    inverse: bool,
    start: Coordinate,
    distance: Fixed,
    hyp_angle: Rotation,
    first: Fixed,
    second: Fixed,
) -> Coordinate {
    let num = fx(
        spec_minus(
            spec_plus(
                spec_times(first.raw as int, first.raw as int),
                spec_times(distance.raw as int, distance.raw as int),
            ),
            spec_times(second.raw as int, second.raw as int),
        ),
    );
    let den = fx(
        spec_times(spec_times(131072, first.raw as int), distance.raw as int),
    );
    if den.raw == 0 {
        spec_coord_plus(start, spec_polar(first, hyp_angle))
    } else {
        let c = fx(spec_divide(num.raw as int, den.raw as int));
        if c.raw < -65536 || c.raw > 65536 {
            spec_coord_plus(start, spec_polar(first, hyp_angle))
        } else {
            let alpha = fx(spec_acos(c.raw as int));
            let signed = if inverse {
                fx(crate::fixed::spec_neg(alpha.raw as int))
            } else {
                alpha
            };
            let dir = Rotation {
                radians: fx(spec_minus(hyp_angle.radians.raw as int, signed.raw as int)),
            };
            spec_coord_plus(start, spec_polar(first, dir))
        }
    }
}

/// The solved geometry of a bone entered at `start` with orientation
/// `entry_angle` (the inbound orientation plus the joint's angle).
#[verifier::opaque]
pub open spec fn spec_determine_end(
    start: Coordinate,
    desired_end: Option<Vector>,
    entry_angle: Rotation,
    kind: BoneKind,
) -> Resolved {
    match kind {
        BoneKind::Rigid { length } => Resolved {
            end: spec_coord_plus(start, spec_polar(length, entry_angle)),
            midpoint: None,
            exit: entry_angle,
        },
        BoneKind::Jointed { start_length, end_length, inverse } => match desired_end {
            None => {
                let mid = spec_coord_plus(start, spec_polar(start_length, entry_angle));
                let end = spec_coord_plus(mid, spec_polar(end_length, entry_angle));
                Resolved { end, midpoint: Some(mid), exit: spec_jointed_exit(mid, end) }
            }
            Some(v) => {
                let abs_dir = Rotation {
                    radians: fx(
                        spec_plus(v.direction.radians.raw as int, entry_angle.radians.raw as int),
                    ),
                };
                let full = fx(spec_plus(start_length.raw as int, end_length.raw as int));
                let minimum = fx(
                    spec_abs(spec_minus(start_length.raw as int, end_length.raw as int)),
                );
                let distance = v.magnitude;
                let clamped = if distance.raw < minimum.raw {
                    minimum
                } else if distance.raw > full.raw {
                    full
                } else {
                    distance
                };
                let end = spec_coord_plus(start, spec_polar(clamped, abs_dir));
                let mid = spec_third_point(inverse, start, clamped, abs_dir, start_length, end_length);
                Resolved { end, midpoint: Some(mid), exit: spec_jointed_exit(mid, end) }
            }
        },
    }
}

/// Computes the midpoint of an aimed jointed bone by triangulation.
pub fn get_third_point(
    inverse: bool,
    start: Coordinate,
    distance: Fixed,
    hyp_angle: Rotation,
    first: Fixed,
    second: Fixed,
) -> (r: Coordinate)
    ensures
        r == spec_third_point(inverse, start, distance, hyp_angle, first, second),
{
    let num = first.times(first).plus(distance.times(distance)).minus(second.times(second));
    let den = Fixed { raw: 131072 }.times(first).times(distance);
    if den.raw == 0 {
        start.plus(polar(first, hyp_angle))
    } else {
        let c = num.divide(den);
        if c.raw < -65536 || c.raw > 65536 {
            start.plus(polar(first, hyp_angle))
        } else {
            let alpha = acos_fx(c);
            let signed = if inverse {
                alpha.neg()
            } else {
                alpha
            };
            let dir = Rotation { radians: hyp_angle.radians.minus(signed) };
            start.plus(polar(first, dir))
        }
    }
}

/// Computes the orientation handed past a jointed bone.
fn jointed_exit(mid: Coordinate, end: Coordinate) -> (r: Rotation)
    ensures
        r == spec_jointed_exit(mid, end),
{
    let d = end.minus(mid);
    Rotation { radians: atan2_fx(d.y, d.x).plus(Fixed { raw: crate::trig::HALF_PI_RAW }) }
}

/// Resolves one bone's geometry: the end position, the midpoint for jointed
/// bones, and the orientation the chain continues with.
pub fn determine_end_position(
    start: Coordinate,
    desired_end: Option<Vector>,
    entry_angle: Rotation,
    kind: &BoneKind,
) -> (r: Resolved)
    ensures
        r == spec_determine_end(start, desired_end, entry_angle, *kind),
{
    proof {
        reveal(spec_determine_end);
    }
    match kind {
        BoneKind::Rigid { length } => Resolved {
            end: start.plus(polar(*length, entry_angle)),
            midpoint: None,
            exit: entry_angle,
        },
        BoneKind::Jointed { start_length, end_length, inverse } => match desired_end {
            None => {
                let mid = start.plus(polar(*start_length, entry_angle));
                let end = mid.plus(polar(*end_length, entry_angle));
                Resolved { end, midpoint: Some(mid), exit: jointed_exit(mid, end) }
            }
            Some(v) => {
                let abs_dir = Rotation { radians: v.direction.radians.plus(entry_angle.radians) };
                let full = start_length.plus(*end_length);
                let minimum = start_length.minus(*end_length).abs();
                let distance = v.magnitude;
                let clamped = if distance.raw < minimum.raw {
                    minimum
                } else if distance.raw > full.raw {
                    full
                } else {
                    distance
                };
                let end = start.plus(polar(clamped, abs_dir));
                let mid = get_third_point(*inverse, start, clamped, abs_dir, *start_length, *end_length);
                Resolved { end, midpoint: Some(mid), exit: jointed_exit(mid, end) }
            }
        },
    }
}

/// The number of unvisited slots in a visited table.
pub open spec fn count_false(s: Seq<bool>) -> nat
    decreases s.len(),
{
    if s.len() == 0 {
        0
    } else {
        (if s.last() {
            0nat
        } else {
            1nat
        }) + count_false(s.drop_last())
    }
}

pub(crate) proof fn lemma_count_false_update(s: Seq<bool>, i: int)
    requires
        0 <= i < s.len(),
        !s[i],
    ensures
        count_false(s.update(i, true)) + 1 == count_false(s),
    decreases s.len(),
{
    let t = s.update(i, true);
    if i == s.len() - 1 {
        assert(t.drop_last() =~= s.drop_last());
    } else {
        assert(t.drop_last() =~= s.drop_last().update(i, true));
        assert(t.last() == s.last());
        lemma_count_false_update(s.drop_last(), i);
    }
}

/// The generation stamp of the next solve pass.
pub open spec fn next_generation(g: u64) -> u64 {
    if g == u64::MAX {
        0
    } else {
        (g + 1) as u64
    }
}

/// One joint considered while traversing away from `axis`, entered at `pos`
/// with orientation `rot`: the opposite bone, unless already updated this
/// pass, is resolved and a frontier entry for its far axis is produced.
pub open spec fn spec_step_joint(
    v: SkeletonView,
    axis: BoneAxis,
    pos: Coordinate,
    rot: Rotation,
    jid: JointId,
) -> (SkeletonView, Option<(BoneAxis, Coordinate, Rotation)>) {
    if jid.0 >= v.joints.len() {
        (v, None)
    } else {
        let joint = v.joints[jid.0 as int];
        let other = spec_other_axis(joint, axis);
        if other.bone.0 >= v.bones.len() {
            (v, None)
        } else {
            let b = v.bones[other.bone.0 as int];
            if b.generation == v.generation {
                (v, None)
            } else {
                let entry = Rotation {
                    radians: fx(
                        spec_plus(rot.radians.raw as int, joint.angle.radians.raw as int),
                    ),
                };
                let res = spec_determine_end(pos, b.desired_end, entry, b.kind);
                let nb = Bone {
                    generation: v.generation,
                    start: pos,
                    entry_angle: entry,
                    end: res.end,
                    joint_pos: res.midpoint,
                    ..b
                };
                let nj = Joint { calculated_position: pos, ..joint };
                let v2 = SkeletonView {
                    bones: v.bones.update(other.bone.0 as int, nb),
                    joints: v.joints.update(jid.0 as int, nj),
                    ..v
                };
                let far = BoneAxis {
                    bone: other.bone,
                    end: match other.end {
                        BoneEnd::A => BoneEnd::B,
                        BoneEnd::B => BoneEnd::A,
                    },
                };
                (v2, Some((far, res.end, res.exit)))
            }
        }
    }
}

/// Processes every joint registered under one axis, in registration order,
/// appending the produced frontier entries to the stack.
pub open spec fn spec_run_joints(
    v: SkeletonView,
    conns: Seq<JointId>,
    axis: BoneAxis,
    pos: Coordinate,
    rot: Rotation,
    stack: Seq<(BoneAxis, Coordinate, Rotation)>,
) -> (SkeletonView, Seq<(BoneAxis, Coordinate, Rotation)>)
    decreases conns.len(),
{
    if conns.len() == 0 {
        (v, stack)
    } else {
        let sr = spec_step_joint(v, axis, pos, rot, conns.first());
        match sr.1 {
            Some(e) => spec_run_joints(sr.0, conns.drop_first(), axis, pos, rot, stack.push(e)),
            None => spec_run_joints(sr.0, conns.drop_first(), axis, pos, rot, stack),
        }
    }
}

/// The traversal loop: pops frontier entries until none remain, visiting
/// each axis at most once.
pub open spec fn spec_solve_loop(
    v: SkeletonView,
    stack: Seq<(BoneAxis, Coordinate, Rotation)>,
    visited: Seq<bool>,
) -> SkeletonView
    decreases count_false(visited), stack.len(),
    via spec_solve_loop_dec
{
    if stack.len() == 0 {
        v
    } else {
        let e = stack.last();
        let rest = stack.drop_last();
        let code = axis_code(e.0);
        if code < visited.len() && !visited[code] {
            let visited2 = visited.update(code, true);
            let conns = if code < v.connections.len() {
                v.connections[code]
            } else {
                Seq::empty()
            };
            let rr = spec_run_joints(v, conns, e.0, e.1, e.2, rest);
            spec_solve_loop(rr.0, rr.1, visited2)
        } else {
            spec_solve_loop(v, rest, visited)
        }
    }
}

#[via_fn]
proof fn spec_solve_loop_dec(
    v: SkeletonView,
    stack: Seq<(BoneAxis, Coordinate, Rotation)>,
    visited: Seq<bool>,
) {
    if stack.len() > 0 {
        let code = axis_code(stack.last().0);
        if code < visited.len() && !visited[code] {
            lemma_count_false_update(visited, code);
        }
    }
}

/// One full repose pass over a skeleton: a no-op on an empty skeleton;
/// otherwise the generation advances, the root is resolved from its start
/// position and the global rotation stored in the implicit self-joint, and
/// the traversal is seeded with both root axes.
pub open spec fn spec_solve(v: SkeletonView) -> SkeletonView {
    if v.bones.len() == 0 {
        v
    } else {
        let gen2 = next_generation(v.generation);
        let rot = if v.joints.len() > 0 {
            v.joints[0].angle
        } else {
            Rotation { radians: Fixed { raw: 0 } }
        };
        let root = v.bones[0];
        let res = spec_determine_end(root.start, root.desired_end, rot, root.kind);
        let nroot = Bone {
            generation: gen2,
            entry_angle: rot,
            end: res.end,
            joint_pos: res.midpoint,
            ..root
        };
        let njoints = if v.joints.len() > 0 {
            v.joints.update(0, Joint { calculated_position: root.start, ..v.joints[0] })
        } else {
            v.joints
        };
        let v2 = SkeletonView {
            bones: v.bones.update(0, nroot),
            joints: njoints,
            generation: gen2,
            ..v
        };
        let seed_a = (
            BoneAxis { bone: BoneId(0), end: BoneEnd::A },
            root.start,
            Rotation { radians: fx(spec_plus(rot.radians.raw as int, crate::trig::PI_RAW as int)) },
        );
        let seed_b = (BoneAxis { bone: BoneId(0), end: BoneEnd::B }, res.end, rot);
        let visited0 = Seq::new(v.connections.len(), |i: int| false);
        spec_solve_loop(v2, seq![seed_a, seed_b], visited0)
    }
}

/// The parts of a skeleton model that a solve pass never changes: lengths of
/// the arenas, every id, every label, every bone kind and aim target, every
/// joint's axes and angle, and the adjacency table.
pub open spec fn structure_preserved(a: SkeletonView, b: SkeletonView) -> bool {
    &&& b.bones.len() == a.bones.len()
    &&& forall|i: int|
        0 <= i < a.bones.len() ==> {
            let x = a.bones[i];
            let y = #[trigger] b.bones[i];
            y.id == x.id && y.label == x.label && y.kind == x.kind && y.desired_end
                == x.desired_end
        }
    &&& b.joints.len() == a.joints.len()
    &&& forall|j: int|
        0 <= j < a.joints.len() ==> {
            let x = a.joints[j];
            let y = #[trigger] b.joints[j];
            y.id == x.id && y.label == x.label && y.bone_a == x.bone_a && y.bone_b == x.bone_b
                && y.angle == x.angle
        }
    &&& b.connections == a.connections
}

proof fn lemma_wf_structure(a: SkeletonView, b: SkeletonView)
    requires
        wf_view(a),
        structure_preserved(a, b),
    ensures
        wf_view(b),
{
    assert forall|a2: int, k: int|
        0 <= a2 < b.connections.len() && 0 <= k < b.connections[a2].len() implies {
        let id = #[trigger] b.connections[a2][k];
        &&& id.0 < b.joints.len()
        &&& (axis_code(b.joints[id.0 as int].bone_a) == a2 || axis_code(
            b.joints[id.0 as int].bone_b,
        ) == a2)
    } by {
        assert(a.connections[a2][k] == b.connections[a2][k]);
    }
}

impl Skeleton {
    /// Updates the solved positions of all bones in this skeleton that are
    /// connected directly or indirectly to the root bone via joints, in one
    /// bounded pass over the joint graph.
    #[verifier::rlimit(100)]
    pub fn solve(&mut self)
        requires
            old(self).wf(),
        ensures
            final(self).wf(),
            final(self)@ == spec_solve(old(self)@),
    {
        let ghost orig = self@;
        if self.bones.len() == 0 {
            proof {
                view_parts(self);
            }
            return;
        }
        proof {
            view_parts(self);
        }
        let gen2: u64 = if self.generation == u64::MAX {
            0
        } else {
            self.generation + 1
        };
        self.generation = gen2;
        let rot = self.joints[0].angle;
        let root_start = self.bones[0].start;
        let root_desired = self.bones[0].desired_end;
        let root_kind = self.bones[0].kind;
        let res = determine_end_position(root_start, root_desired, rot, &root_kind);
        {
            let b = &mut self.bones[0];
            b.generation = gen2;
            b.entry_angle = rot;
            b.end = res.end;
            b.joint_pos = res.midpoint;
        }
        {
            let j = &mut self.joints[0];
            j.calculated_position = root_start;
        }
        let mut stack: Vec<(BoneAxis, Coordinate, Rotation)> = Vec::new();
        stack.push(
            (
                BoneAxis { bone: BoneId(0), end: BoneEnd::A },
                root_start,
                rot.plus(Rotation { radians: Fixed { raw: crate::trig::PI_RAW } }),
            ),
        );
        stack.push((BoneAxis { bone: BoneId(0), end: BoneEnd::B }, res.end, rot));
        let conn_count = self.connections.len();
        let mut visited: Vec<bool> = Vec::new();
        while visited.len() < conn_count
            invariant
                visited@.len() <= conn_count,
                forall|k: int| 0 <= k < visited@.len() ==> !(#[trigger] visited@[k]),
            decreases conn_count - visited.len(),
        {
            visited.push(false);
        }
        let ghost target = spec_solve(orig);
        proof {
            view_parts(self);
            assert(visited@ =~= Seq::new(orig.connections.len(), |i: int| false));
            assert(self@.bones =~= orig.bones.update(
                0,
                Bone {
                    generation: gen2,
                    entry_angle: rot,
                    end: res.end,
                    joint_pos: res.midpoint,
                    ..orig.bones[0]
                },
            ));
            assert(self@.joints =~= orig.joints.update(
                0,
                Joint { calculated_position: root_start, ..orig.joints[0] },
            ));
            assert(self@ =~= (SkeletonView {
                bones: orig.bones.update(
                    0,
                    Bone {
                        generation: gen2,
                        entry_angle: rot,
                        end: res.end,
                        joint_pos: res.midpoint,
                        ..orig.bones[0]
                    },
                ),
                joints: orig.joints.update(
                    0,
                    Joint { calculated_position: root_start, ..orig.joints[0] },
                ),
                connections: orig.connections,
                generation: gen2,
            }));
            assert(stack@ =~= seq![
                (
                    BoneAxis { bone: BoneId(0), end: BoneEnd::A },
                    orig.bones[0].start,
                    Rotation {
                        radians: fx(
                            spec_plus(
                                orig.joints[0].angle.radians.raw as int,
                                crate::trig::PI_RAW as int,
                            ),
                        ),
                    },
                ),
                (BoneAxis { bone: BoneId(0), end: BoneEnd::B }, res.end, orig.joints[0].angle),
            ]);
            assert(target == spec_solve_loop(self@, stack@, visited@));
            assert(structure_preserved(orig, self@));
        }
        while stack.len() > 0
            invariant
                visited@.len() == self@.connections.len(),
                self@.generation == gen2,
                spec_solve_loop(self@, stack@, visited@) == target,
                structure_preserved(orig, self@),
            decreases count_false(visited@), stack@.len(),
        {
            let ghost pre_stack = stack@;
            let entry = stack.pop().unwrap();
            let (axis, pos, rot_in) = entry;
            proof {
                assert(pre_stack.subrange(0, pre_stack.len() - 1) =~= pre_stack.drop_last());
            }
            let code = axis_code_of(axis);
            if code < visited.len() && !visited[code] {
                let ghost visited_pre = visited@;
                visited.set(code, true);
                let ghost v_entry = self@;
                let ghost conns = v_entry.connections[code as int];
                let ghost rest_stack = stack@;
                let ghost rr_target = spec_run_joints(v_entry, conns, axis, pos, rot_in, rest_stack);
                proof {
                    view_parts(self);
                    assert(conns.skip(0) =~= conns);
                }
                let conns_len = self.connections[code].len();
                for k in 0..conns_len
                    invariant
                        visited@.len() == self@.connections.len(),
                        self@.generation == gen2,
                        self@.connections == v_entry.connections,
                        structure_preserved(orig, self@),
                        code < v_entry.connections.len(),
                        conns == v_entry.connections[code as int],
                        conns_len == conns.len(),
                        spec_run_joints(self@, conns.skip(k as int), axis, pos, rot_in, stack@)
                            == rr_target,
                        visited@ == visited_pre.update(code as int, true),
                {
                    proof {
                        view_parts(self);
                    }
                    let jid = self.connections[code][k];
                    let ghost pre = self@;
                    let ghost pre_stack2 = stack@;
                    proof {
                        assert(conns.skip(k as int).first() == conns[k as int]);
                        assert(conns.skip(k as int).drop_first() =~= conns.skip(k as int + 1));
                        assert(jid == conns[k as int]);
                    }
                    if (jid.0 as usize) < self.joints.len() {
                        let j_bone_a = self.joints[jid.0 as usize].bone_a;
                        let j_bone_b = self.joints[jid.0 as usize].bone_b;
                        let j_angle = self.joints[jid.0 as usize].angle;
                        let other = if j_bone_a == axis {
                            j_bone_b
                        } else {
                            j_bone_a
                        };
                        if (other.bone.0 as usize) < self.bones.len() {
                            let bidx = other.bone.0 as usize;
                            if self.bones[bidx].generation == gen2 {
                                proof {
                                    assert(spec_step_joint(pre, axis, pos, rot_in, jid) == (
                                        pre,
                                        None::<(BoneAxis, Coordinate, Rotation)>,
                                    ));
                                }
                            } else {
                                let b_desired = self.bones[bidx].desired_end;
                                let b_kind = self.bones[bidx].kind;
                                let entry_ang = rot_in.plus(j_angle);
                                let res2 = determine_end_position(pos, b_desired, entry_ang, &b_kind);
                                {
                                    let bm = &mut self.bones[bidx];
                                    bm.generation = gen2;
                                    bm.start = pos;
                                    bm.entry_angle = entry_ang;
                                    bm.end = res2.end;
                                    bm.joint_pos = res2.midpoint;
                                }
                                {
                                    let jm = &mut self.joints[jid.0 as usize];
                                    jm.calculated_position = pos;
                                }
                                let far = other.inverse();
                                stack.push((far, res2.end, res2.exit));
                                proof {
                                    view_parts(self);
                                    assert(self@.bones =~= pre.bones.update(
                                        bidx as int,
                                        Bone {
                                            generation: gen2,
                                            start: pos,
                                            entry_angle: entry_ang,
                                            end: res2.end,
                                            joint_pos: res2.midpoint,
                                            ..pre.bones[bidx as int]
                                        },
                                    ));
                                    assert(self@.joints =~= pre.joints.update(
                                        jid.0 as int,
                                        Joint {
                                            calculated_position: pos,
                                            ..pre.joints[jid.0 as int]
                                        },
                                    ));
                                    assert(self@.connections == pre.connections);
                                    assert(spec_step_joint(pre, axis, pos, rot_in, jid) == (
                                        self@,
                                        Some((far, res2.end, res2.exit)),
                                    ));
                                    assert(stack@ == pre_stack2.push((far, res2.end, res2.exit)));
                                }
                            }
                        } else {
                            proof {
                                assert(spec_step_joint(pre, axis, pos, rot_in, jid) == (
                                    pre,
                                    None::<(BoneAxis, Coordinate, Rotation)>,
                                ));
                            }
                        }
                    } else {
                        proof {
                            assert(spec_step_joint(pre, axis, pos, rot_in, jid) == (
                                pre,
                                None::<(BoneAxis, Coordinate, Rotation)>,
                            ));
                        }
                    }
                    proof {
                        assert(spec_run_joints(
                            self@,
                            conns.skip(k as int + 1),
                            axis,
                            pos,
                            rot_in,
                            stack@,
                        ) == rr_target);
                    }
                }
                proof {
                    assert(conns.skip(conns_len as int) =~= Seq::<JointId>::empty());
                    assert(rr_target == (self@, stack@));
                    lemma_count_false_update(visited_pre, code as int);
                    assert(spec_solve_loop(v_entry, pre_stack, visited_pre) == spec_solve_loop(
                        self@,
                        stack@,
                        visited@,
                    ));
                }
            } else {
                proof {
                    assert(spec_solve_loop(self@, pre_stack, visited@) == spec_solve_loop(
                        self@,
                        stack@,
                        visited@,
                    ));
                }
            }
        }
        proof {
            assert(spec_solve_loop(self@, stack@, visited@) == self@);
            lemma_wf_structure(orig, self@);
        }
    }
}

} // verus!
