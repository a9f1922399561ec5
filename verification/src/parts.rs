//! The skeleton's persisted form: an ordered bone list and an ordered joint
//! list, from which a skeleton is rebuilt by replaying the push operations
//! in order. Ids are therefore wholly order-derived, never stored.

use vstd::prelude::*;
use crate::geometry::{Rotation, Vector};
use crate::skeleton::{BoneAxis, BoneKind, Joint, Skeleton};

verus! {

/// One bone of the persisted form: its kind, its (possibly empty) label,
/// and its optional aim target.
#[derive(Debug)]
pub struct BonePart {
    /// The shape of the bone.
    pub kind: BoneKind,
    /// The bone's label; empty when unlabeled.
    pub label: String,
    /// The bone's aim target, if one was set.
    pub target: Option<Vector>,
}

/// One joint of the persisted form: the two connected axes, the configured
/// angle, and a (possibly empty) label. The root's implicit self-joint is
/// not part of the persisted form; rebuilding recreates it.
#[derive(Debug)]
pub struct JointPart {
    /// The first connected axis.
    pub from: BoneAxis,
    /// The second connected axis.
    pub to: BoneAxis,
    /// The configured angle.
    pub angle: Rotation,
    /// The joint's label; empty when unlabeled.
    pub label: String,
}

/// Why a persisted form cannot be rebuilt.
#[derive(Clone, Copy, PartialEq, Eq, Structural, Debug)]
pub enum AssembleError {
    /// The bone list exceeds the 16-bit id space.
    TooManyBones,
    /// The joint list exceeds the 16-bit id space.
    TooManyJoints,
    /// A joint references a bone that the bone list does not define.
    UnknownAxis,
}

/// A persisted form that can be rebuilt: both lists fit the 16-bit id
/// space, and every joint references bones the bone list defines.
pub open spec fn parts_ok(bones: Seq<BonePart>, joints: Seq<JointPart>) -> bool {
    &&& bones.len() <= 0x10000
    &&& (bones.len() > 0 ==> joints.len() <= 0xffff)
    &&& forall|j: int|
        0 <= j < joints.len() ==> (#[trigger] joints[j]).from.bone.0 < bones.len() && joints[
        j].to.bone.0 < bones.len()
}

impl Skeleton {
    /// Rebuilds a skeleton from its persisted form by replaying
    /// `push_bone` and `push_joint` in list order, restoring each bone's
    /// aim target. Fails, changing nothing, when an id space would overflow
    /// or a joint references an undefined bone.
    pub fn from_parts(bones: &Vec<BonePart>, joints: &Vec<JointPart>) -> (r: Result<
        Skeleton,
        AssembleError,
    >)
        ensures
            r is Ok <==> parts_ok(bones@, joints@),
            bones@.len() > 0x10000 <==> r == Err::<Skeleton, AssembleError>(
                AssembleError::TooManyBones,
            ),
            (bones@.len() <= 0x10000 && bones@.len() > 0 && joints@.len() > 0xffff) <==> r
                == Err::<Skeleton, AssembleError>(AssembleError::TooManyJoints),
            r matches Ok(s) ==> {
                &&& s.wf()
                &&& s@.bones.len() == bones@.len()
                &&& forall|i: int|
                    0 <= i < bones@.len() ==> {
                        let b = #[trigger] s@.bones[i];
                        b.kind == bones@[i].kind && b.label@ == bones@[i].label@ && b.desired_end
                            == bones@[i].target
                    }
                &&& s@.joints.len() == joints@.len() + (if bones@.len() > 0 {
                    1int
                } else {
                    0int
                })
                &&& forall|j: int|
                    0 <= j < joints@.len() ==> {
                        let jt = #[trigger] s@.joints[j + 1];
                        jt.bone_a == joints@[j].from && jt.bone_b == joints@[j].to && jt.angle
                            == joints@[j].angle && jt.label@ == joints@[j].label@
                    }
            },
    {
        if bones.len() > 0x10000 {
            return Err(AssembleError::TooManyBones);
        }
        if bones.len() > 0 && joints.len() > 0xffff {
            return Err(AssembleError::TooManyJoints);
        }
        let mut s = Skeleton::new();
        let n = bones.len();
        let mut i: usize = 0;
        while i < n
            invariant
                n == bones@.len(),
                n <= 0x10000,
                i <= n,
                s.wf(),
                s@.bones.len() == i,
                s@.joints.len() == (if i > 0 {
                    1int
                } else {
                    0int
                }),
                forall|k: int|
                    0 <= k < i ==> {
                        let b = #[trigger] s@.bones[k];
                        b.kind == bones@[k].kind && b.label@ == bones@[k].label@ && b.desired_end
                            == bones@[k].target
                    },
            decreases n - i,
        {
            let id = s.push_bone(bones[i].kind, bones[i].label.as_str());
            match bones[i].target {
                Some(t) => {
                    match s.bone_mut(id) {
                        Some(b) => {
                            b.set_desired_end(Some(t));
                        }
                        None => {
                        }
                    }
                }
                None => {
                }
            }
            i = i + 1;
        }
        let m = joints.len();
        let mut j: usize = 0;
        while j < m
            invariant
                m == joints@.len(),
                n == bones@.len(),
                j <= m,
                n > 0 ==> m <= 0xffff,
                s.wf(),
                s@.bones.len() == n,
                s@.joints.len() == (if n > 0 {
                    j + 1int
                } else {
                    0int
                }),
                forall|k: int|
                    0 <= k < n ==> {
                        let b = #[trigger] s@.bones[k];
                        b.kind == bones@[k].kind && b.label@ == bones@[k].label@ && b.desired_end
                            == bones@[k].target
                    },
                forall|k: int|
                    0 <= k < j ==> {
                        let jt = #[trigger] s@.joints[k + 1];
                        jt.bone_a == joints@[k].from && jt.bone_b == joints@[k].to && jt.angle
                            == joints@[k].angle && jt.label@ == joints@[k].label@
                    },
                forall|k: int|
                    0 <= k < j ==> (#[trigger] joints@[k]).from.bone.0 < n && joints@[k].to.bone.0
                        < n,
            decreases m - j,
        {
            let part = &joints[j];
            if !((part.from.bone.0 as usize) < s.bones().len() && (part.to.bone.0 as usize)
                < s.bones().len()) {
                return Err(AssembleError::UnknownAxis);
            }
            let built = Joint::new(part.angle, part.from, part.to).with_label(part.label.as_str());
            s.push_joint(built);
            j = j + 1;
        }
        proof {
            if n == 0 && m > 0 {
                assert(joints@[0].from.bone.0 < n);
                assert(false);
            }
        }
        Ok(s)
    }

    /// The persisted form of this skeleton: its bones in push order, and
    /// its joints in push order without the root's implicit self-joint.
    pub fn to_parts(&self) -> (r: (Vec<BonePart>, Vec<JointPart>))
        requires
            self.wf(),
        ensures
            r.0@.len() == self@.bones.len(),
            forall|i: int|
                0 <= i < self@.bones.len() ==> {
                    let p = #[trigger] r.0@[i];
                    p.kind == self@.bones[i].kind && p.label@ == self@.bones[i].label@ && p.target
                        == self@.bones[i].desired_end
                },
            r.1@.len() == (if self@.joints.len() > 0 {
                self@.joints.len() - 1
            } else {
                0int
            }),
            forall|j: int|
                0 <= j < r.1@.len() ==> {
                    let p = #[trigger] r.1@[j];
                    p.from == self@.joints[j + 1].bone_a && p.to == self@.joints[j + 1].bone_b
                        && p.angle == self@.joints[j + 1].angle && p.label@ == self@.joints[j
                        + 1].label@
                },
    {
        let mut bones: Vec<BonePart> = Vec::new();
        let n = self.bones().len();
        let mut i: usize = 0;
        while i < n
            invariant
                n == self@.bones.len(),
                i <= n,
                bones@.len() == i,
                forall|k: int|
                    0 <= k < i ==> {
                        let p = #[trigger] bones@[k];
                        p.kind == self@.bones[k].kind && p.label@ == self@.bones[k].label@
                            && p.target == self@.bones[k].desired_end
                    },
            decreases n - i,
        {
            let b = &self.bones()[i];
            bones.push(
                BonePart { kind: b.kind, label: b.label.as_str().to_owned(), target: b.desired_end },
            );
            i = i + 1;
        }
        let mut joints: Vec<JointPart> = Vec::new();
        let m = self.joints().len();
        let mut j: usize = 1;
        if m == 0 {
            return (bones, joints);
        }
        while j < m
            invariant
                m == self@.joints.len(),
                1 <= j <= m,
                joints@.len() == j - 1,
                forall|k: int|
                    0 <= k < j - 1 ==> {
                        let p = #[trigger] joints@[k];
                        p.from == self@.joints[k + 1].bone_a && p.to == self@.joints[k + 1].bone_b
                            && p.angle == self@.joints[k + 1].angle && p.label@ == self@.joints[k
                            + 1].label@
                    },
            decreases m - j,
        {
            let jt = &self.joints()[j];
            joints.push(
                JointPart {
                    from: jt.bone_a,
                    to: jt.bone_b,
                    angle: jt.angle,
                    label: jt.label.as_str().to_owned(),
                },
            );
            j = j + 1;
        }
        (bones, joints)
    }
}

} // verus!
