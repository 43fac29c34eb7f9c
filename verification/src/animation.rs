//! Skeletons for skinned meshes: bones with parent links, checking and
//! repairing those links, and building a skeleton from a scene's node tree.
//!
//! The pose matrices are carried as values of a type parameter `M`; the
//! engine instantiates it with its 4x4 matrix type.

use vstd::prelude::*;
use std::collections::HashMap;
use crate::logging::{EnigmaError, texts};
use crate::text::{decimal, debug_repr, debug_quoted, push_decimal, push_str};

verus! {

/// A bone: its name, its index in the skeleton, the scene node it stands for,
/// the index of its parent bone if it has one, and its inverse bind pose.
#[derive(Clone, Debug)]
pub struct Bone<M> {
    pub name: String,
    pub id: usize,
    pub node_index: usize,
    pub parent_id: Option<usize>,
    pub inverse_bind_pose: M,
}

/// The bones of a skinned mesh, in order.
#[derive(Clone, Debug)]
pub struct Skeleton<M> {
    pub bones: Vec<Bone<M>>,
}

/// Every parent link names a bone of the skeleton.
pub open spec fn parents_valid<M>(bones: Seq<Bone<M>>) -> bool {
    forall|i: int| 0 <= i < bones.len() ==> (#[trigger] bones[i].parent_id matches Some(p) ==> p < bones.len())
}

/// Bone `i` has a parent link that names no bone of the skeleton.
pub open spec fn parent_invalid<M>(bones: Seq<Bone<M>>, i: int) -> bool {
    bones[i].parent_id matches Some(p) && p >= bones.len()
}

/// The message that reports bone `bone` of a skeleton of `len` bones.
pub open spec fn invalid_parent_message(parent: usize, name: Seq<char>, id: usize, len: usize) -> Seq<char> {
    "Invalid parent ID "@ + decimal(parent as nat) + " for bone "@ + debug_repr(name)
        + " with id "@ + decimal(id as nat) + ". There are only "@ + decimal(len as nat)
        + " bones in the skeleton."@
}

/// A bone with its parent link dropped if it names no bone of a skeleton of
/// `len` bones.
pub open spec fn fixed_bone<M>(b: Bone<M>, len: nat) -> Bone<M> {
    match b.parent_id {
        Some(p) => if p >= len {
            Bone { parent_id: None, ..b }
        } else {
            b
        },
        None => b,
    }
}

/// The bones with every parent link that names no bone dropped.
pub open spec fn fixed_bones<M>(bones: Seq<Bone<M>>) -> Seq<Bone<M>> {
    bones.map_values(|b: Bone<M>| fixed_bone(b, bones.len()))
}

/// Repairing makes a skeleton valid, and leaves a valid one as it is.
pub proof fn lemma_fix_makes_valid<M>(bones: Seq<Bone<M>>)
    ensures
        parents_valid(fixed_bones(bones)),
        parents_valid(bones) ==> fixed_bones(bones) == bones,
{
    let f = fixed_bones(bones);
    assert forall|i: int| 0 <= i < f.len() implies (#[trigger] f[i].parent_id matches Some(p) ==> p < f.len()) by {
        assert(f[i] == fixed_bone(bones[i], bones.len()));
    }
    if parents_valid(bones) {
        assert forall|i: int| 0 <= i < bones.len() implies f[i] == bones[i] by {
            assert(bones[i].parent_id matches Some(p) ==> p < bones.len());
        }
        assert(f =~= bones);
    }
}

impl<M> Skeleton<M> {
    /// Checks every parent link. The first bone whose parent names no bone of
    /// the skeleton is reported in an error that is also written to disk.
    pub fn validate(&self) -> (r: Result<(), EnigmaError>)
        ensures
            r is Ok <==> parents_valid(self.bones@),
            r matches Err(e) ==> e.to_disk() && exists|i: int| {
                &&& 0 <= i < self.bones@.len()
                &&& parent_invalid(self.bones@, i)
                &&& forall|j: int| 0 <= j < i ==> !parent_invalid(self.bones@, j)
                &&& texts(e@) == seq![invalid_parent_message(
                    self.bones@[i].parent_id->0,
                    self.bones@[i].name@,
                    self.bones@[i].id,
                    self.bones@.len() as usize,
                )]
            },
    {
        let n = self.bones.len();
        let mut i: usize = 0;
        while i < n
            invariant
                n == self.bones@.len(),
                0 <= i <= n,
                forall|j: int| 0 <= j < i ==> !parent_invalid(self.bones@, j),
            decreases n - i,
        {
            let bone = &self.bones[i];
            if let Some(parent_id) = bone.parent_id {
                if parent_id >= n {
                    let mut msg: String = String::new();
                    push_str(&mut msg, "Invalid parent ID ");
                    push_decimal(&mut msg, parent_id);
                    push_str(&mut msg, " for bone ");
                    let quoted = debug_quoted(bone.name.as_str());
                    push_str(&mut msg, quoted.as_str());
                    push_str(&mut msg, " with id ");
                    push_decimal(&mut msg, bone.id);
                    push_str(&mut msg, ". There are only ");
                    push_decimal(&mut msg, n);
                    push_str(&mut msg, " bones in the skeleton.");
                    let e = EnigmaError::new(Some(msg.as_str()), true);
                    proof {
                        assert(msg@ =~= invalid_parent_message(parent_id, bone.name@, bone.id, n));
                        assert(parent_invalid(self.bones@, i as int));
                    }
                    return Err(e);
                }
            }
            i = i + 1;
        }
        proof {
            assert forall|j: int| 0 <= j < self.bones@.len() implies
                (#[trigger] self.bones@[j].parent_id matches Some(p) ==> p < self.bones@.len()) by {
                assert(!parent_invalid(self.bones@, j));
            }
        }
        Ok(())
    }

    /// Drops every parent link that names no bone of the skeleton. It never fails.
    pub fn try_fix(&mut self) -> (r: Result<(), EnigmaError>)
        ensures
            r is Ok,
            final(self).bones@ == fixed_bones(old(self).bones@),
    {
        let n = self.bones.len();
        let mut i: usize = 0;
        while i < n
            invariant
                n == self.bones@.len(),
                n == old(self).bones@.len(),
                0 <= i <= n,
                forall|j: int| 0 <= j < i ==> self.bones@[j] == fixed_bone(old(self).bones@[j], n as nat),
                forall|j: int| i <= j < n ==> self.bones@[j] == old(self).bones@[j],
            decreases n - i,
        {
            if let Some(parent_id) = self.bones[i].parent_id {
                if parent_id >= n {
                    self.bones[i].parent_id = None;
                }
            }
            i = i + 1;
        }
        assert(self.bones@ =~= fixed_bones(old(self).bones@));
        Ok(())
    }
}

/// Keyframe times are handed over as keys that order as the times do; an
/// unknown key (a time that is not a number) compares with nothing.
pub open spec fn key_le(a: Option<u32>, b: Option<u32>) -> bool {
    a matches Some(x) && b matches Some(y) && x <= y
}

/// Searching from keyframe `i` on for the first pair of neighbours whose
/// times enclose `time` (both ends included); the first keyframe twice if
/// there is none.
pub open spec fn enclosing_from(times: Seq<Option<u32>>, time: Option<u32>, i: int) -> (usize, usize)
    decreases times.len() - i,
{
    if i < 0 || i + 1 >= times.len() {
        (0, 0)
    } else if key_le(times[i], time) && key_le(time, times[i + 1]) {
        (i as usize, (i + 1) as usize)
    } else {
        enclosing_from(times, time, i + 1)
    }
}

/// The keyframes to interpolate between at `time`: the first one twice if
/// `time` is no later than it, the last one twice if `time` is no earlier
/// than it, and otherwise the first pair of neighbours that enclose `time`.
pub open spec fn surrounding(times: Seq<Option<u32>>, time: Option<u32>) -> (usize, usize) {
    if key_le(time, times[0]) {
        (0, 0)
    } else if key_le(times[times.len() - 1], time) {
        ((times.len() - 1) as usize, (times.len() - 1) as usize)
    } else {
        enclosing_from(times, time, 0)
    }
}

proof fn lemma_enclosing_from(times: Seq<Option<u32>>, time: Option<u32>, i: int)
    requires
        0 < times.len() <= usize::MAX,
    ensures
        enclosing_from(times, time, i).0 < times.len(),
        enclosing_from(times, time, i).1 < times.len(),
        enclosing_from(times, time, i) == (0usize, 0usize) || {
            let (p, n) = enclosing_from(times, time, i);
            &&& n == p + 1
            &&& key_le(times[p as int], time)
            &&& key_le(time, times[n as int])
        },
    decreases times.len() - i,
{
    if i < 0 || i + 1 >= times.len() {
    } else if key_le(times[i], time) && key_le(time, times[i + 1]) {
    } else {
        lemma_enclosing_from(times, time, i + 1);
    }
}

/// Neighbours `i` and `i + 1` enclose `time` (both ends included).
pub open spec fn encloses(times: Seq<Option<u32>>, time: Option<u32>, i: int) -> bool {
    0 <= i && i + 1 < times.len() && key_le(times[i], time) && key_le(time, times[i + 1])
}

proof fn lemma_enclosing_first(times: Seq<Option<u32>>, time: Option<u32>, start: int, w: int)
    requires
        0 < times.len() <= usize::MAX,
        0 <= start <= w,
        encloses(times, time, w),
    ensures
        enclosing_from(times, time, start).1 == enclosing_from(times, time, start).0 + 1,
        encloses(times, time, enclosing_from(times, time, start).0 as int),
        start <= enclosing_from(times, time, start).0,
        forall|j: int| start <= j < enclosing_from(times, time, start).0 ==> !encloses(times, time, j),
    decreases times.len() - start,
{
    if key_le(times[start], time) && key_le(time, times[start + 1]) {
    } else {
        assert(!encloses(times, time, start));
        lemma_enclosing_first(times, time, start + 1, w);
    }
}

/// Where the keyframes are taken from: no later than the first keyframe,
/// the first twice; otherwise no earlier than the last, the last twice;
/// otherwise, if some neighbours enclose the time, the first such pair.
pub proof fn lemma_surrounding_keyframes(times: Seq<Option<u32>>, time: Option<u32>)
    requires
        0 < times.len() <= usize::MAX,
    ensures
        key_le(time, times[0]) ==> surrounding(times, time) == (0usize, 0usize),
        !key_le(time, times[0]) && key_le(times[times.len() - 1], time)
            ==> surrounding(times, time) == ((times.len() - 1) as usize, (times.len() - 1) as usize),
        !key_le(time, times[0]) && !key_le(times[times.len() - 1], time)
            && (exists|i: int| #[trigger] encloses(times, time, i)) ==> {
            let r = surrounding(times, time);
            &&& r.1 == r.0 + 1
            &&& encloses(times, time, r.0 as int)
            &&& forall|j: int| 0 <= j < r.0 ==> !#[trigger] encloses(times, time, j)
        },
{
    if !key_le(time, times[0]) && !key_le(times[times.len() - 1], time) && (exists|i: int| #[trigger] encloses(times, time, i)) {
        let w = choose|i: int| #[trigger] encloses(times, time, i);
        lemma_enclosing_first(times, time, 0, w);
    }
}

/// The pair of keyframes to interpolate between at `time`, by their
/// positions. Either one keyframe twice, or two neighbours whose times
/// enclose `time`.
pub fn surrounding_keyframes(times: &Vec<Option<u32>>, time: Option<u32>) -> (r: (usize, usize))
    requires
        times@.len() > 0,
    ensures
        r == surrounding(times@, time),
        r.0 < times@.len(),
        r.1 < times@.len(),
        r.0 == r.1 || (r.1 == r.0 + 1 && key_le(times@[r.0 as int], time) && key_le(time, times@[r.1 as int])),
        !key_le(time, times@[0]) && !key_le(times@[times@.len() - 1], time)
            && (exists|i: int| #[trigger] encloses(times@, time, i)) ==> {
            &&& r.1 == r.0 + 1
            &&& encloses(times@, time, r.0 as int)
            &&& forall|j: int| 0 <= j < r.0 ==> !#[trigger] encloses(times@, time, j)
        },
{
    let n = times.len();
    proof { lemma_surrounding_keyframes(times@, time); }
    proof { lemma_enclosing_from(times@, time, 0); }
    if le(time, times[0]) {
        return (0, 0);
    }
    if le(times[n - 1], time) {
        return (n - 1, n - 1);
    }
    let mut i: usize = 0;
    while i + 1 < n
        invariant
            n == times@.len(),
            n > 0,
            0 <= i < n,
            enclosing_from(times@, time, 0) == enclosing_from(times@, time, i as int),
            !key_le(time, times@[0]),
            !key_le(times@[n - 1], time),
        decreases n - i,
    {
        if le(times[i], time) && le(time, times[i + 1]) {
            assert(enclosing_from(times@, time, i as int) == (i, (i + 1) as usize));
            proof { lemma_surrounding_keyframes(times@, time); }
            return (i, i + 1);
        }
        i = i + 1;
    }
    (0, 0)
}

/// Whether key `a` is at most key `b`.
fn le(a: Option<u32>, b: Option<u32>) -> (r: bool)
    ensures
        r == key_le(a, b),
{
    match (a, b) {
        (Some(x), Some(y)) => x <= y,
        _ => false,
    }
}

} // verus!
