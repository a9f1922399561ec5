//! The skeleton graph: bones, joints, bone axes, and the axis-to-joint
//! adjacency lists.
//!
//! Bones and joints are stored in dense, append-only arenas and addressed by
//! 16-bit ids. The first bone pushed is the root; it owns an implicit
//! self-joint (both axes equal to the root's first axis) that stores the
//! skeleton's global rotation.

use vstd::prelude::*;
use crate::fixed::Fixed;
use crate::geometry::{Coordinate, Rotation, Vector, spec_vector_to};
use crate::fixed::{fx, spec_plus};

verus! {

/// The unique id of a bone in a skeleton.
#[derive(Clone, Copy, PartialEq, Eq, Structural, Debug)]
pub struct BoneId(pub u16);

/// The unique id of a joint in a skeleton.
#[derive(Clone, Copy, PartialEq, Eq, Structural, Debug)]
pub struct JointId(pub u16);

/// A specific end of a bone.
#[derive(Clone, Copy, PartialEq, Eq, Structural, Debug)]
pub enum BoneEnd {
    /// The first end of a bone.
    A,
    /// The second end of a bone.
    B,
}

/// A specific end of a specific bone: the unit of connection.
#[derive(Clone, Copy, PartialEq, Eq, Structural, Debug)]
pub struct BoneAxis {
    /// The bone this axis belongs to.
    pub bone: BoneId,
    /// Which end of the bone is referenced.
    pub end: BoneEnd,
}

/// The shape of a bone: a single rigid segment, or two segments joined by an
/// automatically adjusting joint.
#[derive(Clone, Copy, PartialEq, Eq, Structural, Debug)]
pub enum BoneKind {
    /// A single bone of a fixed length.
    Rigid {
        /// The length of the bone.
        length: Fixed,
    },
    /// Two segments connected by a joint that bends as needed to reach an
    /// aimed target.
    Jointed {
        /// The length of the segment closest to the skeleton root.
        start_length: Fixed,
        /// The length of the segment furthest from the skeleton root.
        end_length: Fixed,
        /// Which of the two possible bend directions the joint takes.
        inverse: bool,
    },
}

/// A bone stored inside a skeleton, together with its solved pose.
#[derive(Debug)]
pub struct Bone {
    /// The unique id of this bone.
    pub id: BoneId,
    /// The solve pass that last updated this bone.
    pub generation: u64,
    /// The label this bone was created with; empty when unlabeled.
    pub label: String,
    /// The shape of this bone.
    pub kind: BoneKind,
    /// The solved start position.
    pub start: Coordinate,
    /// The solved midpoint, present for jointed bones only.
    pub joint_pos: Option<Coordinate>,
    /// The solved end position.
    pub end: Coordinate,
    /// An optional aim target for the far end, relative to the bone's local
    /// entry frame.
    pub desired_end: Option<Vector>,
    /// The orientation the chain arrived with.
    pub entry_angle: Rotation,
}

/// A connection between two bone axes carrying a configurable rotation.
#[derive(Debug)]
pub struct Joint {
    /// The unique id of this joint.
    pub id: JointId,
    /// The label this joint was created with; empty when unlabeled.
    pub label: String,
    /// The first connected axis.
    pub bone_a: BoneAxis,
    /// The second connected axis.
    pub bone_b: BoneAxis,
    /// The solved position of this joint.
    pub calculated_position: Coordinate,
    /// The configured angle between the two axes.
    pub angle: Rotation,
}

/// A collection of bones connected by joints.
#[derive(Debug)]
pub struct Skeleton {
    pub(crate) bones: Vec<Bone>,
    pub(crate) joints: Vec<Joint>,
    pub(crate) connections: Vec<Vec<JointId>>,
    pub(crate) generation: u64,
}

/// The mathematical model of a skeleton.
#[verifier::ext_equal]
pub ghost struct SkeletonView {
    /// The bones, in push order.
    pub bones: Seq<Bone>,
    /// The joints, in push order.
    pub joints: Seq<Joint>,
    /// For each axis code, the joints registered under that axis.
    pub connections: Seq<Seq<JointId>>,
    /// The current solve-pass stamp.
    pub generation: u64,
}

impl View for Skeleton {
    type V = SkeletonView;

    closed spec fn view(&self) -> SkeletonView {
        SkeletonView {
            bones: self.bones@,
            joints: self.joints@,
            connections: self.connections@.map_values(|v: Vec<JointId>| v@),
            generation: self.generation,
        }
    }
}

/// Unfolds the view of a skeleton into its fields, for modules that work on
/// the concrete representation.
pub(crate) proof fn view_parts(s: &Skeleton)
    ensures
        s@.bones == s.bones@,
        s@.joints == s.joints@,
        s@.connections == s.connections@.map_values(|v: Vec<JointId>| v@),
        s@.generation == s.generation,
{
}

impl BoneEnd {
    /// Returns the opposite end.
    pub fn inverse(self) -> (r: BoneEnd)
        ensures
            r == (match self {
                BoneEnd::A => BoneEnd::B,
                BoneEnd::B => BoneEnd::A,
            }),
    {
        match self {
            BoneEnd::A => BoneEnd::B,
            BoneEnd::B => BoneEnd::A,
        }
    }
}

impl BoneId {
    /// The index of this bone within its skeleton.
    pub open spec fn spec_index(self) -> int {
        self.0 as int
    }

    /// Returns the index of this bone within its skeleton.
    pub fn index(self) -> (r: usize)
        ensures
            r == self.spec_index(),
    {
        self.0 as usize
    }

    /// Returns the first axis of this bone.
    pub fn axis_a(self) -> (r: BoneAxis)
        ensures
            r == (BoneAxis { bone: self, end: BoneEnd::A }),
    {
        BoneAxis { bone: self, end: BoneEnd::A }
    }

    /// Returns the second axis of this bone.
    pub fn axis_b(self) -> (r: BoneAxis)
        ensures
            r == (BoneAxis { bone: self, end: BoneEnd::B }),
    {
        BoneAxis { bone: self, end: BoneEnd::B }
    }
}

impl JointId {
    /// The index of this joint within its skeleton.
    pub open spec fn spec_index(self) -> int {
        self.0 as int
    }

    /// Returns the index of this joint within its skeleton.
    pub fn index(self) -> (r: usize)
        ensures
            r == self.spec_index(),
    {
        self.0 as usize
    }
}

/// The dense index of an axis in the adjacency table: two slots per bone.
pub open spec fn axis_code(a: BoneAxis) -> int {
    2 * a.bone.0 + (if a.end == BoneEnd::B {
        1int
    } else {
        0int
    })
}

/// Computes the dense adjacency index of an axis.
pub fn axis_code_of(a: BoneAxis) -> (r: usize)
    ensures
        r == axis_code(a),
{
    2 * (a.bone.0 as usize) + (if matches!(a.end, BoneEnd::B) {
        1usize
    } else {
        0usize
    })
}

impl BoneAxis {
    /// Returns the opposite axis of the same bone.
    pub fn inverse(self) -> (r: BoneAxis)
        ensures
            r == (BoneAxis { bone: self.bone, end: match self.end {
                BoneEnd::A => BoneEnd::B,
                BoneEnd::B => BoneEnd::A,
            } }),
    {
        BoneAxis { bone: self.bone, end: self.end.inverse() }
    }
}

/// The saturating full length of a bone kind.
pub open spec fn spec_full_length(kind: BoneKind) -> Fixed {
    match kind {
        BoneKind::Rigid { length } => length,
        BoneKind::Jointed { start_length, end_length, .. } => fx(
            spec_plus(start_length.raw as int, end_length.raw as int),
        ),
    }
}

impl BoneKind {
    /// Returns the full length of this bone.
    pub fn full_length(&self) -> (r: Fixed)
        ensures
            r == spec_full_length(*self),
    {
        match self {
            BoneKind::Rigid { length } => *length,
            BoneKind::Jointed { start_length, end_length, .. } => start_length.plus(*end_length),
        }
    }

    /// Returns true for a jointed bone that bends inversely.
    pub fn is_inverse(&self) -> (r: bool)
        ensures
            r == (match *self {
                BoneKind::Rigid { .. } => false,
                BoneKind::Jointed { inverse, .. } => inverse,
            }),
    {
        match self {
            BoneKind::Rigid { .. } => false,
            BoneKind::Jointed { inverse, .. } => *inverse,
        }
    }

    /// Sets the bend direction; only affects a jointed bone.
    pub fn set_inverse(&mut self, new_inverse: bool)
        ensures
            *final(self) == (match *old(self) {
                BoneKind::Rigid { length } => BoneKind::Rigid { length },
                BoneKind::Jointed { start_length, end_length, .. } => BoneKind::Jointed {
                    start_length,
                    end_length,
                    inverse: new_inverse,
                },
            }),
    {
        match self {
            BoneKind::Rigid { .. } => {
            }
            BoneKind::Jointed { inverse, .. } => {
                *inverse = new_inverse;
            }
        }
    }
}

/// The vector of a bone's final segment: from its midpoint (or its start,
/// for a bone without one) to its end.
pub open spec fn spec_final_vector(b: Bone) -> Vector {
    let base = match b.joint_pos {
        Some(p) => p,
        None => b.start,
    };
    spec_vector_to(base, b.end)
}

impl Bone {
    /// Returns the unique id of this bone.
    pub fn id(&self) -> (r: BoneId)
        ensures
            r == self.id,
    {
        self.id
    }

    /// Returns true for the skeleton's root bone.
    pub fn is_root(&self) -> (r: bool)
        ensures
            r == (self.id.0 == 0),
    {
        self.id.0 == 0
    }

    /// Returns the kind of this bone.
    pub fn kind(&self) -> (r: &BoneKind)
        ensures
            *r == self.kind,
    {
        &self.kind
    }

    /// Returns an exclusive reference to the kind of this bone.
    pub fn kind_mut(&mut self) -> (r: &mut BoneKind)
        ensures
            *r == old(self).kind,
            *final(self) == (Bone { kind: *final(r), ..*old(self) }),
    {
        &mut self.kind
    }

    /// Aims the far end of this bone at a position relative to its local
    /// entry frame; only affects a jointed bone's solved pose.
    pub fn set_desired_end(&mut self, end: Option<Vector>)
        ensures
            *final(self) == (Bone { desired_end: end, ..*old(self) }),
    {
        self.desired_end = end;
    }

    /// Returns the aim target of this bone.
    pub fn desired_end(&self) -> (r: Option<Vector>)
        ensures
            r == self.desired_end,
    {
        self.desired_end
    }

    /// Returns the orientation the chain arrived with.
    pub fn entry_angle(&self) -> (r: Rotation)
        ensures
            r == self.entry_angle,
    {
        self.entry_angle
    }

    /// Returns the solved start position.
    pub fn start(&self) -> (r: Coordinate)
        ensures
            r == self.start,
    {
        self.start
    }

    /// Returns the solved end position.
    pub fn end(&self) -> (r: Coordinate)
        ensures
            r == self.end,
    {
        self.end
    }

    /// Returns the vector of the final segment of this bone.
    pub fn final_vector(&self) -> (r: Vector)
        ensures
            r == spec_final_vector(*self),
    {
        let base = match self.joint_pos {
            Some(p) => p,
            None => self.start,
        };
        base.vector_to(self.end)
    }

    /// Returns the solved midpoint of a jointed bone.
    pub fn solved_joint(&self) -> (r: Option<Coordinate>)
        ensures
            r == self.joint_pos,
    {
        self.joint_pos
    }

    /// Returns the label this bone was created with; empty when unlabeled.
    pub fn label(&self) -> (r: &str)
        ensures
            r@ == self.label@,
    {
        self.label.as_str()
    }
}

/// The opposite axis of a joint: given one of its two axes, the other.
pub open spec fn spec_other_axis(j: Joint, axis: BoneAxis) -> BoneAxis {
    if j.bone_a == axis {
        j.bone_b
    } else {
        j.bone_a
    }
}

impl Joint {
    /// Returns the unique id of this joint.
    pub fn id(&self) -> (r: JointId)
        ensures
            r == self.id,
    {
        self.id
    }

    /// Returns a new joint connecting `bone_a` and `bone_b` at `angle`.
    pub fn new(angle: Rotation, bone_a: BoneAxis, bone_b: BoneAxis) -> (r: Joint)
        ensures
            r.id == (JointId(0)),
            r.label@ == Seq::<char>::empty(),
            r.bone_a == bone_a,
            r.bone_b == bone_b,
            r.angle == angle,
            r.calculated_position == (Coordinate { x: Fixed { raw: 0 }, y: Fixed { raw: 0 } }),
    {
        Joint {
            id: JointId(0),
            label: String::new(),
            bone_a,
            bone_b,
            calculated_position: Coordinate { x: Fixed { raw: 0 }, y: Fixed { raw: 0 } },
            angle,
        }
    }

    /// Labels this joint and returns it.
    pub fn with_label(self, label: &str) -> (r: Joint)
        ensures
            r == (Joint { label: r.label, ..self }),
            r.label@ == label@,
    {
        Joint { label: label.to_owned(), ..self }
    }

    /// Returns the label of this joint; empty when unlabeled.
    pub fn label(&self) -> (r: &str)
        ensures
            r@ == self.label@,
    {
        self.label.as_str()
    }

    /// Given one of the two axes in this joint, returns the other.
    pub fn other_axis(&self, axis: BoneAxis) -> (r: BoneAxis)
        requires
            self.bone_a == axis || self.bone_b == axis,
        ensures
            r == spec_other_axis(*self, axis),
    {
        if self.bone_a == axis {
            self.bone_b
        } else {
            self.bone_a
        }
    }

    /// Sets the angle formed between the joined axes.
    pub fn set_angle(&mut self, angle: Rotation)
        ensures
            *final(self) == (Joint { angle, ..*old(self) }),
    {
        self.angle = angle;
    }

    /// Returns the configured rotation of this joint.
    pub fn angle(&self) -> (r: Rotation)
        ensures
            r == self.angle,
    {
        self.angle
    }
}

/// Well-formedness of a skeleton model: ids are dense, the adjacency table
/// has two slots per bone, every registered joint id is valid and references
/// the axis it is registered under, every joint's axes name existing bones,
/// and a non-empty skeleton starts with the root's implicit self-joint.
pub open spec fn wf_view(v: SkeletonView) -> bool {
    &&& v.bones.len() <= 0x10000
    &&& v.joints.len() <= 0x10000
    &&& v.connections.len() == 2 * v.bones.len()
    &&& forall|i: int|
        0 <= i < v.bones.len() ==> (#[trigger] v.bones[i]).id == (BoneId(i as u16))
    &&& forall|j: int|
        0 <= j < v.joints.len() ==> (#[trigger] v.joints[j]).id == (JointId(j as u16))
    &&& forall|j: int|
        0 <= j < v.joints.len() ==> (#[trigger] v.joints[j]).bone_a.bone.0 < v.bones.len()
            && v.joints[j].bone_b.bone.0 < v.bones.len()
    &&& forall|a: int, k: int|
        0 <= a < v.connections.len() && 0 <= k < v.connections[a].len() ==> {
            let id = #[trigger] v.connections[a][k];
            &&& id.0 < v.joints.len()
            &&& (axis_code(v.joints[id.0 as int].bone_a) == a || axis_code(
                v.joints[id.0 as int].bone_b,
            ) == a)
        }
    &&& v.bones.len() > 0 ==> {
        &&& v.joints.len() > 0
        &&& v.joints[0].bone_a == (BoneAxis { bone: BoneId(0), end: BoneEnd::A })
        &&& v.joints[0].bone_b == (BoneAxis { bone: BoneId(0), end: BoneEnd::A })
    }
}

/// The most recently pushed bone carrying the non-empty label `l`.
pub open spec fn spec_find_bone(bones: Seq<Bone>, l: Seq<char>) -> Option<BoneId>
    decreases bones.len(),
{
    if bones.len() == 0 {
        None
    } else if bones.last().label@ == l && l.len() > 0 {
        Some(bones.last().id)
    } else {
        spec_find_bone(bones.drop_last(), l)
    }
}

/// The most recently pushed joint carrying the non-empty label `l`.
pub open spec fn spec_find_joint(joints: Seq<Joint>, l: Seq<char>) -> Option<JointId>
    decreases joints.len(),
{
    if joints.len() == 0 {
        None
    } else if joints.last().label@ == l && l.len() > 0 {
        Some(joints.last().id)
    } else {
        spec_find_joint(joints.drop_last(), l)
    }
}

impl Skeleton {
    /// Well-formedness of this skeleton.
    pub open spec fn wf(&self) -> bool {
        wf_view(self@)
    }

    /// Creates an empty skeleton.
    pub fn new() -> (r: Skeleton)
        ensures
            r.wf(),
            r@.bones.len() == 0,
            r@.joints.len() == 0,
            r@.connections.len() == 0,
            r@.generation == 0,
    {
        let r = Skeleton { bones: Vec::new(), joints: Vec::new(), connections: Vec::new(), generation: 0 };
        proof {
            assert(r@.connections =~= Seq::<Seq<JointId>>::empty());
        }
        r
    }

    /// Appends a bone with an optional (possibly empty) label and returns its
    /// id. The first bone pushed is the root: pushing it also creates the
    /// implicit self-joint that stores the skeleton's global rotation.
    pub fn push_bone(&mut self, kind: BoneKind, label: &str) -> (r: BoneId)
        requires
            old(self).wf(),
            old(self)@.bones.len() < 0x10000,
        ensures
            final(self).wf(),
            r == (BoneId(old(self)@.bones.len() as u16)),
            final(self)@.bones.len() == old(self)@.bones.len() + 1,
            forall|i: int|
                0 <= i < old(self)@.bones.len() ==> #[trigger] final(self)@.bones[i] == old(
                    self,
                )@.bones[i],
            final(self)@.bones.last().id == r,
            final(self)@.bones.last().generation == old(self)@.generation,
            final(self)@.bones.last().label@ == label@,
            final(self)@.bones.last().kind == kind,
            final(self)@.bones.last().start == (Coordinate { x: Fixed { raw: 0 }, y: Fixed { raw: 0 } }),
            final(self)@.bones.last().end == (Coordinate { x: Fixed { raw: 0 }, y: Fixed { raw: 0 } }),
            final(self)@.bones.last().joint_pos is None,
            final(self)@.bones.last().desired_end is None,
            final(self)@.bones.last().entry_angle == (Rotation { radians: Fixed { raw: 0 } }),
            old(self)@.bones.len() > 0 ==> final(self)@.joints == old(self)@.joints,
            old(self)@.bones.len() == 0 ==> {
                &&& final(self)@.joints.len() == 1
                &&& final(self)@.joints[0].id == (JointId(0))
                &&& final(self)@.joints[0].bone_a == (BoneAxis { bone: BoneId(0), end: BoneEnd::A })
                &&& final(self)@.joints[0].bone_b == (BoneAxis { bone: BoneId(0), end: BoneEnd::A })
                &&& final(self)@.joints[0].angle == (Rotation { radians: Fixed { raw: 0 } })
                &&& final(self)@.joints[0].label@ == Seq::<char>::empty()
            },
            final(self)@.generation == old(self)@.generation,
            final(self)@.connections.len() == old(self)@.connections.len() + 2,
            forall|a: int|
                0 <= a < old(self)@.connections.len() ==> #[trigger] final(self)@.connections[a]
                    == old(self)@.connections[a],
            old(self)@.bones.len() > 0 ==> final(self)@.connections[2 * old(self)@.bones.len() as int]
                == Seq::<JointId>::empty(),
            old(self)@.bones.len() == 0 ==> final(self)@.connections[0] == seq![JointId(0)],
            final(self)@.connections[2 * old(self)@.bones.len() as int + 1] == Seq::<JointId>::empty(),
    {
        let first = self.bones.len() == 0;
        let id = BoneId(self.bones.len() as u16);
        self.bones.push(
            Bone {
                id,
                generation: self.generation,
                label: label.to_owned(),
                kind,
                start: Coordinate { x: Fixed { raw: 0 }, y: Fixed { raw: 0 } },
                joint_pos: None,
                end: Coordinate { x: Fixed { raw: 0 }, y: Fixed { raw: 0 } },
                desired_end: None,
                entry_angle: Rotation { radians: Fixed { raw: 0 } },
            },
        );
        let mut slot_a: Vec<JointId> = Vec::new();
        if first {
            let root_axis = BoneAxis { bone: BoneId(0), end: BoneEnd::A };
            self.joints.push(
                Joint {
                    id: JointId(0),
                    label: String::new(),
                    bone_a: root_axis,
                    bone_b: root_axis,
                    calculated_position: Coordinate { x: Fixed { raw: 0 }, y: Fixed { raw: 0 } },
                    angle: Rotation { radians: Fixed { raw: 0 } },
                },
            );
            slot_a.push(JointId(0));
        }
        self.connections.push(slot_a);
        self.connections.push(Vec::new());
        proof {
            assert(self@.connections =~= old(self)@.connections + seq![
                self.connections@[self.connections@.len() - 2]@,
                Seq::<JointId>::empty(),
            ]);
            assert(self.wf()) by {
                assert forall|a: int, k: int|
                    0 <= a < self@.connections.len() && 0 <= k < self@.connections[a].len() implies {
                    let jid = #[trigger] self@.connections[a][k];
                    &&& jid.0 < self@.joints.len()
                    &&& (axis_code(self@.joints[jid.0 as int].bone_a) == a || axis_code(
                        self@.joints[jid.0 as int].bone_b,
                    ) == a)
                } by {
                    if a < old(self)@.connections.len() {
                        assert(self@.connections[a] == old(self)@.connections[a]);
                    }
                }
            }
        }
        id
    }

    /// Appends a joint connecting two existing bone axes, registering it in
    /// the adjacency table under both axes (once when they are equal), and
    /// returns its id.
    pub fn push_joint(&mut self, joint: Joint) -> (r: JointId)
        requires
            old(self).wf(),
            old(self)@.joints.len() < 0x10000,
            joint.bone_a.bone.0 < old(self)@.bones.len(),
            joint.bone_b.bone.0 < old(self)@.bones.len(),
        ensures
            final(self).wf(),
            r == (JointId(old(self)@.joints.len() as u16)),
            final(self)@.bones == old(self)@.bones,
            final(self)@.generation == old(self)@.generation,
            final(self)@.joints.len() == old(self)@.joints.len() + 1,
            forall|j: int|
                0 <= j < old(self)@.joints.len() ==> #[trigger] final(self)@.joints[j] == old(
                    self,
                )@.joints[j],
            final(self)@.joints.last() == (Joint { id: r, ..joint }),
            final(self)@.connections.len() == old(self)@.connections.len(),
            joint.bone_a == joint.bone_b ==> final(self)@.connections == old(
                self,
            )@.connections.update(
                axis_code(joint.bone_a),
                old(self)@.connections[axis_code(joint.bone_a)].push(r),
            ),
            joint.bone_a != joint.bone_b ==> final(self)@.connections == old(
                self,
            )@.connections.update(
                axis_code(joint.bone_a),
                old(self)@.connections[axis_code(joint.bone_a)].push(r),
            ).update(
                axis_code(joint.bone_b),
                old(self)@.connections.update(
                    axis_code(joint.bone_a),
                    old(self)@.connections[axis_code(joint.bone_a)].push(r),
                )[axis_code(joint.bone_b)].push(r),
            ),
    {
        let id = JointId(self.joints.len() as u16);
        let bone_a = joint.bone_a;
        let bone_b = joint.bone_b;
        let equal_axes = bone_a == bone_b;
        self.joints.push(Joint { id, ..joint });
        let code_a = axis_code_of(bone_a);
        let slot_a = &mut self.connections[code_a];
        slot_a.push(id);
        proof {
            assert(self@.connections =~= old(self)@.connections.update(
                axis_code(bone_a),
                old(self)@.connections[axis_code(bone_a)].push(id),
            ));
        }
        if !equal_axes {
            let ghost mid = self@;
            let code_b = axis_code_of(bone_b);
            let slot_b = &mut self.connections[code_b];
            slot_b.push(id);
            proof {
                assert(self@.connections =~= mid.connections.update(
                    axis_code(bone_b),
                    mid.connections[axis_code(bone_b)].push(id),
                ));
            }
        }
        proof {
            assert(self.wf()) by {
                assert forall|a: int, k: int|
                    0 <= a < self@.connections.len() && 0 <= k < self@.connections[a].len() implies {
                    let jid = #[trigger] self@.connections[a][k];
                    &&& jid.0 < self@.joints.len()
                    &&& (axis_code(self@.joints[jid.0 as int].bone_a) == a || axis_code(
                        self@.joints[jid.0 as int].bone_b,
                    ) == a)
                } by {
                    if self@.connections[a][k] == id {
                        assert(a == axis_code(bone_a) || a == axis_code(bone_b));
                    } else {
                        assert(old(self)@.connections[a].contains(self@.connections[a][k]));
                        assert(exists|k0: int|
                            0 <= k0 < old(self)@.connections[a].len() && old(
                                self,
                            )@.connections[a][k0] == self@.connections[a][k]);
                    }
                }
            }
        }
        id
    }

    /// Returns the list of bones in this skeleton.
    pub fn bones(&self) -> (r: &Vec<Bone>)
        ensures
            r@ == self@.bones,
    {
        &self.bones
    }

    /// Returns the list of joints in this skeleton.
    pub fn joints(&self) -> (r: &Vec<Joint>)
        ensures
            r@ == self@.joints,
    {
        &self.joints
    }

    /// Returns the bone with the given id, or `None` if there is none.
    pub fn bone(&self, id: BoneId) -> (r: Option<&Bone>)
        ensures
            id.spec_index() < self@.bones.len() ==> (r matches Some(b) && *b == self@.bones[id.spec_index()]),
            id.spec_index() >= self@.bones.len() ==> r is None,
    {
        if (id.0 as usize) < self.bones.len() {
            Some(&self.bones[id.0 as usize])
        } else {
            None
        }
    }

    /// Returns an exclusive reference to the bone with the given id, or
    /// `None` if there is none.
    pub fn bone_mut(&mut self, id: BoneId) -> (r: Option<&mut Bone>)
        ensures
            id.spec_index() < old(self)@.bones.len() ==> (r matches Some(b) && *b == old(
                self,
            )@.bones[id.spec_index()] && final(self)@ == (SkeletonView {
                bones: old(self)@.bones.update(id.spec_index(), *final(b)),
                ..old(self)@
            })),
            id.spec_index() >= old(self)@.bones.len() ==> (r is None && final(self)@ == old(self)@),
    {
        if (id.0 as usize) < self.bones.len() {
            Some(&mut self.bones[id.0 as usize])
        } else {
            None
        }
    }

    /// Returns the joint with the given id, or `None` if there is none.
    pub fn joint(&self, id: JointId) -> (r: Option<&Joint>)
        ensures
            id.spec_index() < self@.joints.len() ==> (r matches Some(j) && *j == self@.joints[id.spec_index()]),
            id.spec_index() >= self@.joints.len() ==> r is None,
    {
        if (id.0 as usize) < self.joints.len() {
            Some(&self.joints[id.0 as usize])
        } else {
            None
        }
    }

    /// Returns an exclusive reference to the joint with the given id, or
    /// `None` if there is none.
    pub fn joint_mut(&mut self, id: JointId) -> (r: Option<&mut Joint>)
        ensures
            id.spec_index() < old(self)@.joints.len() ==> (r matches Some(j) && *j == old(
                self,
            )@.joints[id.spec_index()] && final(self)@ == (SkeletonView {
                joints: old(self)@.joints.update(id.spec_index(), *final(j)),
                ..old(self)@
            })),
            id.spec_index() >= old(self)@.joints.len() ==> (r is None && final(self)@ == old(self)@),
    {
        if (id.0 as usize) < self.joints.len() {
            Some(&mut self.joints[id.0 as usize])
        } else {
            None
        }
    }

    /// Returns the joints connected to the given axis, or `None` when none
    /// are registered under it.
    pub fn connections_to(&self, axis: BoneAxis) -> (r: Option<&Vec<JointId>>)
        ensures
            r matches Some(v) ==> (axis_code(axis) < self@.connections.len() && v@ == self@.connections[axis_code(axis)] && v@.len() > 0),
            r is None ==> axis_code(axis) >= self@.connections.len() || self@.connections[axis_code(axis)].len() == 0,
    {
        let code = axis_code_of(axis);
        if code < self.connections.len() && self.connections[code].len() > 0 {
            Some(&self.connections[code])
        } else {
            None
        }
    }

    /// Finds the most recently pushed bone with the given non-empty label.
    pub fn find_bone_by_label(&self, label: &str) -> (r: Option<BoneId>)
        ensures
            r == spec_find_bone(self@.bones, label@),
    {
        let needle: String = label.to_owned();
        let mut i: usize = self.bones.len();
        proof {
            assert(self@.bones.take(i as int) =~= self@.bones);
        }
        while i > 0
            invariant
                i <= self.bones.len(),
                needle@ == label@,
                spec_find_bone(self@.bones, label@) == spec_find_bone(
                    self@.bones.take(i as int),
                    label@,
                ),
            decreases i,
        {
            i = i - 1;
            let b = &self.bones[i];
            if !b.label.as_str().is_empty() && b.label.eq(&needle) {
                proof {
                    assert(self@.bones.take(i as int + 1).last() == self@.bones[i as int]);
                }
                return Some(b.id);
            }
            proof {
                assert(self@.bones.take(i as int + 1).drop_last() =~= self@.bones.take(i as int));
            }
        }
        proof {
            assert(self@.bones.take(0) =~= Seq::<Bone>::empty());
        }
        None
    }

    /// Finds the most recently pushed joint with the given non-empty label.
    pub fn find_joint_by_label(&self, label: &str) -> (r: Option<JointId>)
        ensures
            r == spec_find_joint(self@.joints, label@),
    {
        let needle: String = label.to_owned();
        let mut i: usize = self.joints.len();
        proof {
            assert(self@.joints.take(i as int) =~= self@.joints);
        }
        while i > 0
            invariant
                i <= self.joints.len(),
                needle@ == label@,
                spec_find_joint(self@.joints, label@) == spec_find_joint(
                    self@.joints.take(i as int),
                    label@,
                ),
            decreases i,
        {
            i = i - 1;
            let j = &self.joints[i];
            if !j.label.as_str().is_empty() && j.label.eq(&needle) {
                proof {
                    assert(self@.joints.take(i as int + 1).last() == self@.joints[i as int]);
                }
                return Some(j.id);
            }
            proof {
                assert(self@.joints.take(i as int + 1).drop_last() =~= self@.joints.take(i as int));
            }
        }
        proof {
            assert(self@.joints.take(0) =~= Seq::<Joint>::empty());
        }
        None
    }

    /// Sets the translation applied to the entire skeleton: the root bone's
    /// start position.
    pub fn set_translation(&mut self, translation: Coordinate)
        requires
            old(self).wf(),
            old(self)@.bones.len() > 0,
        ensures
            final(self).wf(),
            final(self)@ == (SkeletonView {
                bones: old(self)@.bones.update(0, Bone { start: translation, ..old(self)@.bones[0] }),
                ..old(self)@
            }),
    {
        let b = &mut self.bones[0];
        b.start = translation;
        proof {
            assert(self@.bones =~= old(self)@.bones.update(
                0,
                Bone { start: translation, ..old(self)@.bones[0] },
            ));
        }
    }

    /// Returns the translation applied to the entire skeleton.
    pub fn translation(&self) -> (r: Coordinate)
        requires
            self@.bones.len() > 0,
        ensures
            r == self@.bones[0].start,
    {
        self.bones[0].start
    }

    /// Sets the base rotation applied to the entire skeleton, stored in the
    /// root's implicit self-joint.
    pub fn set_rotation(&mut self, rotation: Rotation)
        requires
            old(self).wf(),
            old(self)@.bones.len() > 0,
        ensures
            final(self).wf(),
            final(self)@ == (SkeletonView {
                joints: old(self)@.joints.update(0, Joint { angle: rotation, ..old(self)@.joints[0] }),
                ..old(self)@
            }),
    {
        let j = &mut self.joints[0];
        j.angle = rotation;
        proof {
            assert(self@.joints =~= old(self)@.joints.update(
                0,
                Joint { angle: rotation, ..old(self)@.joints[0] },
            ));
        }
    }

    /// Returns the base rotation applied to the entire skeleton.
    pub fn rotation(&self) -> (r: Rotation)
        requires
            self.wf(),
            self@.bones.len() > 0,
        ensures
            r == self@.joints[0].angle,
    {
        self.joints[0].angle
    }
}

impl Default for Skeleton {
    /// Creates an empty skeleton.
    fn default() -> (r: Skeleton)
        ensures
            r.wf(),
            r@.bones.len() == 0,
            r@.joints.len() == 0,
            r@.connections.len() == 0,
            r@.generation == 0,
    {
        Skeleton::new()
    }
}

} // verus!
