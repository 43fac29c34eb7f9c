//! Importing a skin from a scene's node tree: which node is whose parent,
//! which bone is a bone's parent, and which bone a vertex joint index names.
//! The scene file is read by the caller, who hands over plain node data.

use vstd::prelude::*;
use std::collections::HashMap;
use crate::animation::{Bone, Skeleton, parents_valid};
use crate::text::{decimal, push_decimal, push_str};

verus! {

broadcast use vstd::std_specs::hash::group_hash_axioms;

/// The children lists of the nodes, as sequences.
pub open spec fn children_view(node_children: Seq<Vec<usize>>) -> Seq<Seq<usize>> {
    node_children.map_values(|c: Vec<usize>| c@)
}

/// `m` with every child in `children` mapped to `parent`, in order.
pub open spec fn with_parent(m: Map<usize, usize>, children: Seq<usize>, parent: usize) -> Map<usize, usize>
    decreases children.len(),
{
    if children.len() == 0 {
        m
    } else {
        with_parent(m, children.drop_last(), parent).insert(children.last(), parent)
    }
}

/// The parent of each node that is some node's child, going through the nodes
/// in order: a node listed as the child of several nodes gets the last of them.
pub open spec fn parent_map_of(node_children: Seq<Seq<usize>>) -> Map<usize, usize>
    decreases node_children.len(),
{
    if node_children.len() == 0 {
        Map::empty()
    } else {
        with_parent(
            parent_map_of(node_children.drop_last()),
            node_children.last(),
            (node_children.len() - 1) as usize,
        )
    }
}

/// Walking up from `node` for at most `fuel` steps stops: it reaches a node
/// that has no parent, or a node whose parent is a joint.
pub open spec fn walk_stops(m: Map<usize, usize>, joints: Seq<usize>, node: usize, fuel: nat) -> bool
    decreases fuel,
{
    fuel > 0 && (!m.dom().contains(node) || joints.contains(m[node])
        || walk_stops(m, joints, m[node], (fuel - 1) as nat))
}

/// The walk up from `node` in search of a parent joint stops.
pub open spec fn search_ends(m: Map<usize, usize>, joints: Seq<usize>, node: usize) -> bool {
    exists|fuel: nat| walk_stops(m, joints, node, fuel)
}

/// Walking up from `node` for at most `fuel` steps: the index, among the
/// joints, of the first ancestor that is a joint (its first occurrence).
pub open spec fn search_parent_joint(m: Map<usize, usize>, joints: Seq<usize>, node: usize, fuel: nat) -> Option<usize>
    decreases fuel,
{
    if fuel == 0 || !m.dom().contains(node) {
        None
    } else if joints.contains(m[node]) {
        Some(joints.index_of_first(m[node])->0 as usize)
    } else {
        search_parent_joint(m, joints, m[node], (fuel - 1) as nat)
    }
}

/// The index of the parent bone of `node`: the first joint among its
/// ancestors, or none if no ancestor is a joint (for a walk that stops).
pub open spec fn parent_bone_of(m: Map<usize, usize>, joints: Seq<usize>, node: usize) -> Option<usize> {
    search_parent_joint(m, joints, node, choose|fuel: nat| walk_stops(m, joints, node, fuel))
}

/// A parent bone found by the walk is one of the joints.
proof fn lemma_search_in_range(m: Map<usize, usize>, joints: Seq<usize>, node: usize, fuel: nat)
    ensures
        search_parent_joint(m, joints, node, fuel) matches Some(i) ==> i < joints.len(),
    decreases fuel,
{
    if fuel == 0 || !m.dom().contains(node) {
    } else if joints.contains(m[node]) {
        joints.index_of_first_ensures(m[node]);
    } else {
        lemma_search_in_range(m, joints, m[node], (fuel - 1) as nat);
    }
}

/// The parent bone of a node, when there is one, is one of the joints.
pub proof fn lemma_parent_bone_in_range(m: Map<usize, usize>, joints: Seq<usize>, node: usize)
    ensures
        parent_bone_of(m, joints, node) matches Some(i) ==> i < joints.len(),
{
    lemma_search_in_range(m, joints, node, choose|fuel: nat| walk_stops(m, joints, node, fuel));
}

/// The parent of every node that is listed as some node's child.
pub fn node_parent_map(node_children: &Vec<Vec<usize>>) -> (r: HashMap<usize, usize>)
    ensures
        r@ == parent_map_of(children_view(node_children@)),
{
    let ghost cv = children_view(node_children@);
    let mut m: HashMap<usize, usize> = HashMap::new();
    let n = node_children.len();
    let mut node: usize = 0;
    while node < n
        invariant
            n == node_children@.len(),
            cv == children_view(node_children@),
            0 <= node <= n,
            m@ == parent_map_of(cv.take(node as int)),
        decreases n - node,
    {
        let children = &node_children[node];
        let ghost base = m@;
        let k = children.len();
        let mut c: usize = 0;
        while c < k
            invariant
                k == children@.len(),
                0 <= c <= k,
                m@ == with_parent(base, children@.take(c as int), node),
            decreases k - c,
        {
            m.insert(children[c], node);
            proof {
                let t = children@.take(c + 1);
                assert(t.drop_last() =~= children@.take(c as int));
            }
            c = c + 1;
        }
        proof {
            assert(children@.take(k as int) =~= children@);
            let t = cv.take(node + 1);
            assert(t.drop_last() =~= cv.take(node as int));
            assert(t.last() == children@);
        }
        node = node + 1;
    }
    assert(cv.take(n as int) =~= cv);
    m
}

/// The first index at which `joints` holds `value`, if it does.
fn position_of(joints: &Vec<usize>, value: usize) -> (r: Option<usize>)
    ensures
        r == if joints@.contains(value) {
            Some(joints@.index_of_first(value)->0 as usize)
        } else {
            None::<usize>
        },
{
    let n = joints.len();
    let mut i: usize = 0;
    while i < n
        invariant
            n == joints@.len(),
            0 <= i <= n,
            forall|j: int| 0 <= j < i ==> joints@[j] != value,
        decreases n - i,
    {
        if joints[i] == value {
            proof {
                assert(joints@[i as int] == value);
                assert(joints@.contains(value));
                joints@.index_of_first_ensures(value);
                let f = joints@.index_of_first(value)->0;
                assert(f == i) by {
                    if f < i {
                        assert(joints@[f] != value);
                    } else if f > i {
                        assert(joints@[i as int] != value);
                    }
                }
            }
            return Some(i);
        }
        i = i + 1;
    }
    proof {
        joints@.index_of_first_ensures(value);
    }
    None
}

/// The index of the bone that is the parent of the bone standing for `node_index`:
/// the joint that is the nearest ancestor of the node, at its first position
/// among the joints, or none if no ancestor is a joint. The walk up the tree
/// must stop, as it does in any tree.
pub fn find_parent_bone_id(node_index: usize, node_parent_map: &HashMap<usize, usize>, joint_node_indices: &Vec<usize>) -> (r: Option<usize>)
    requires
        search_ends(node_parent_map@, joint_node_indices@, node_index),
    ensures
        r == parent_bone_of(node_parent_map@, joint_node_indices@, node_index),
{
    let ghost m = node_parent_map@;
    let ghost joints = joint_node_indices@;
    let ghost fuel: nat = choose|fuel: nat| walk_stops(m, joints, node_index, fuel);
    let ghost mut steps: nat = 0;
    let mut current: usize = node_index;
    loop
        invariant
            m == node_parent_map@,
            joints == joint_node_indices@,
            steps <= fuel,
            walk_stops(m, joints, current, (fuel - steps) as nat),
            parent_bone_of(m, joints, node_index)
                == search_parent_joint(m, joints, current, (fuel - steps) as nat),
        decreases fuel - steps,
    {
        match node_parent_map.get(&current) {
            Some(parent) => {
                let parent_node_index: usize = *parent;
                let ghost rest: nat = (fuel - steps) as nat;
                assert(m.dom().contains(current) && m[current] == parent_node_index);
                assert(rest > 0);
                assert(search_parent_joint(m, joints, current, rest) == if joints.contains(parent_node_index) {
                    Some(joints.index_of_first(parent_node_index)->0 as usize)
                } else {
                    search_parent_joint(m, joints, parent_node_index, (rest - 1) as nat)
                });
                match position_of(joint_node_indices, parent_node_index) {
                    Some(parent_bone_index) => {
                        return Some(parent_bone_index);
                    },
                    None => {
                        assert(walk_stops(m, joints, parent_node_index, (rest - 1) as nat));
                        current = parent_node_index;
                        proof { steps = steps + 1; }
                    },
                }
            },
            None => {
                assert(!m.dom().contains(current));
                return None;
            },
        }
    }
}

/// A bone as the skin import builds it.
pub open spec fn imported_bone<M>(
    m: Map<usize, usize>,
    node_names: Seq<String>,
    joints: Seq<usize>,
    poses: Seq<M>,
    i: int,
) -> Bone<M> {
    Bone {
        name: node_names[joints[i] as int],
        id: i as usize,
        node_index: joints[i],
        parent_id: parent_bone_of(m, joints, joints[i]),
        inverse_bind_pose: poses[i],
    }
}

/// An imported bone is the joint's own: bone `i` stands for joint `i`'s
/// node, is named after that node and carries pose `i`.
pub proof fn lemma_imported_bone_is_joints_own<M>(
    m: Map<usize, usize>,
    node_names: Seq<String>,
    joints: Seq<usize>,
    poses: Seq<M>,
    i: int,
)
    requires
        0 <= i < joints.len(),
        joints.len() == poses.len(),
        i <= usize::MAX,
    ensures
        imported_bone(m, node_names, joints, poses, i).id == i,
        imported_bone(m, node_names, joints, poses, i).node_index == joints[i],
        imported_bone(m, node_names, joints, poses, i).name == node_names[joints[i] as int],
        imported_bone(m, node_names, joints, poses, i).inverse_bind_pose == poses[i],
{
}

/// Builds the skeleton of a skin: one bone per joint node, in order, named
/// after its node, with the inverse bind pose of the same index and the
/// nearest joint ancestor as its parent. Each joint must be a node of the
/// scene, there must be one pose per joint, and the walk up from every joint
/// in search of a parent joint must stop.
pub fn build_skeleton<M: Copy>(
    node_children: &Vec<Vec<usize>>,
    node_names: &Vec<String>,
    joint_node_indices: &Vec<usize>,
    inverse_bind_poses: &Vec<M>,
) -> (r: Skeleton<M>)
    requires
        joint_node_indices@.len() == inverse_bind_poses@.len(),
        forall|i: int| 0 <= i < joint_node_indices@.len() ==> #[trigger] joint_node_indices@[i] < node_names@.len(),
        forall|i: int| 0 <= i < joint_node_indices@.len()
            ==> search_ends(parent_map_of(children_view(node_children@)), joint_node_indices@, #[trigger] joint_node_indices@[i]),
    ensures
        r.bones@.len() == joint_node_indices@.len(),
        parents_valid(r.bones@),
        forall|i: int| 0 <= i < r.bones@.len() ==> {
            let b = #[trigger] r.bones@[i];
            &&& b.id == i
            &&& b.node_index == joint_node_indices@[i]
            &&& b.name@ == node_names@[joint_node_indices@[i] as int]@
            &&& b.inverse_bind_pose == inverse_bind_poses@[i]
        },
        forall|i: int| 0 <= i < r.bones@.len() ==> {
            let b = #[trigger] r.bones@[i];
            let e = imported_bone(parent_map_of(children_view(node_children@)), node_names@, joint_node_indices@, inverse_bind_poses@, i);
            &&& b.name@ == e.name@
            &&& b.id == e.id
            &&& b.node_index == e.node_index
            &&& b.parent_id == e.parent_id
            &&& b.inverse_bind_pose == e.inverse_bind_pose
        },
{
    let parents = node_parent_map(node_children);
    let ghost m = parents@;
    let mut bones: Vec<Bone<M>> = Vec::new();
    let n = joint_node_indices.len();
    let mut i: usize = 0;
    while i < n
        invariant
            n == joint_node_indices@.len(),
            n == inverse_bind_poses@.len(),
            m == parents@,
            m == parent_map_of(children_view(node_children@)),
            forall|j: int| 0 <= j < n ==> #[trigger] joint_node_indices@[j] < node_names@.len(),
            forall|j: int| 0 <= j < n ==> search_ends(m, joint_node_indices@, #[trigger] joint_node_indices@[j]),
            0 <= i <= n,
            bones@.len() == i,
            forall|j: int| 0 <= j < i ==> (#[trigger] bones@[j].parent_id matches Some(p) ==> p < n),
            forall|j: int| 0 <= j < i ==> {
                let b = #[trigger] bones@[j];
                &&& b.id == j
                &&& b.node_index == joint_node_indices@[j]
                &&& b.name@ == node_names@[joint_node_indices@[j] as int]@
                &&& b.inverse_bind_pose == inverse_bind_poses@[j]
            },
            forall|j: int| 0 <= j < i ==> {
                let b = #[trigger] bones@[j];
                let e = imported_bone(m, node_names@, joint_node_indices@, inverse_bind_poses@, j);
                &&& b.name@ == e.name@
                &&& b.id == e.id
                &&& b.node_index == e.node_index
                &&& b.parent_id == e.parent_id
                &&& b.inverse_bind_pose == e.inverse_bind_pose
            },
        decreases n - i,
    {
        let node_index = joint_node_indices[i];
        let parent_bone_id = find_parent_bone_id(node_index, &parents, joint_node_indices);
        proof { lemma_parent_bone_in_range(m, joint_node_indices@, node_index); }
        let bone = Bone {
            name: node_names[node_index].clone(),
            id: i,
            node_index,
            parent_id: parent_bone_id,
            inverse_bind_pose: inverse_bind_poses[i],
        };
        bones.push(bone);
        i = i + 1;
    }
    Skeleton { bones }
}

/// Whether the walk up from `node` in search of a parent joint stops within
/// `bound` steps.
pub fn parent_search_ends(parents: &HashMap<usize, usize>, joints: &Vec<usize>, node: usize, bound: usize) -> (r: bool)
    ensures
        r == walk_stops(parents@, joints@, node, bound as nat),
{
    let ghost m = parents@;
    let mut current: usize = node;
    let mut left: usize = bound;
    loop
        invariant
            m == parents@,
            left <= bound,
            walk_stops(m, joints@, node, bound as nat) == walk_stops(m, joints@, current, left as nat),
        decreases left,
    {
        if left == 0 {
            return false;
        }
        match parents.get(&current) {
            None => {
                return true;
            },
            Some(parent) => {
                let p: usize = *parent;
                if position_of(joints, p).is_some() {
                    return true;
                }
                assert(walk_stops(m, joints@, current, left as nat) == walk_stops(m, joints@, p, (left - 1) as nat));
                current = p;
                left = left - 1;
            },
        }
    }
}

/// Whether the walk up from every joint in search of a parent joint stops
/// within `bound` steps.
pub fn joint_chains_end(parents: &HashMap<usize, usize>, joints: &Vec<usize>, bound: usize) -> (r: bool)
    ensures
        r == forall|i: int| 0 <= i < joints@.len() ==> walk_stops(parents@, joints@, #[trigger] joints@[i], bound as nat),
{
    let n = joints.len();
    let mut i: usize = 0;
    while i < n
        invariant
            n == joints@.len(),
            0 <= i <= n,
            forall|j: int| 0 <= j < i ==> walk_stops(parents@, joints@, #[trigger] joints@[j], bound as nat),
        decreases n - i,
    {
        if !parent_search_ends(parents, joints, joints[i], bound) {
            return false;
        }
        i = i + 1;
    }
    true
}

/// Whether a skin can be built from these inputs: one pose per joint, every
/// joint a node of the scene, and the walk up from every joint, in search of
/// a parent joint, stopping within as many steps as the scene has nodes.
pub open spec fn skin_importable<M>(
    node_children: Seq<Vec<usize>>,
    node_names: Seq<String>,
    joints: Seq<usize>,
    poses: Seq<M>,
) -> bool {
    &&& joints.len() == poses.len()
    &&& forall|i: int| 0 <= i < joints.len() ==> #[trigger] joints[i] < node_names.len()
    &&& forall|i: int| 0 <= i < joints.len()
        ==> walk_stops(parent_map_of(children_view(node_children)), joints, #[trigger] joints[i], node_children.len())
}

/// Builds the skeleton of a skin as `build_skeleton` does, after checking
/// that it can be built; none when it cannot.
pub fn import_skeleton<M: Copy>(
    node_children: &Vec<Vec<usize>>,
    node_names: &Vec<String>,
    joint_node_indices: &Vec<usize>,
    inverse_bind_poses: &Vec<M>,
) -> (r: Option<Skeleton<M>>)
    ensures
        r is None <==> !skin_importable(node_children@, node_names@, joint_node_indices@, inverse_bind_poses@),
        r matches Some(s) ==> {
            &&& s.bones@.len() == joint_node_indices@.len()
            &&& parents_valid(s.bones@)
            &&& forall|i: int| 0 <= i < s.bones@.len() ==> {
                let b = #[trigger] s.bones@[i];
                &&& b.id == i
                &&& b.node_index == joint_node_indices@[i]
                &&& b.name@ == node_names@[joint_node_indices@[i] as int]@
                &&& b.inverse_bind_pose == inverse_bind_poses@[i]
            }
            &&& forall|i: int| 0 <= i < s.bones@.len() ==> {
                let b = #[trigger] s.bones@[i];
                let e = imported_bone(parent_map_of(children_view(node_children@)), node_names@, joint_node_indices@, inverse_bind_poses@, i);
                &&& b.name@ == e.name@
                &&& b.id == e.id
                &&& b.node_index == e.node_index
                &&& b.parent_id == e.parent_id
                &&& b.inverse_bind_pose == e.inverse_bind_pose
            }
        },
{
    if joint_node_indices.len() != inverse_bind_poses.len() {
        return None;
    }
    let n = joint_node_indices.len();
    let names = node_names.len();
    let mut i: usize = 0;
    while i < n
        invariant
            n == joint_node_indices@.len(),
            names == node_names@.len(),
            0 <= i <= n,
            forall|j: int| 0 <= j < i ==> #[trigger] joint_node_indices@[j] < names,
        decreases n - i,
    {
        if joint_node_indices[i] >= names {
            assert(!(joint_node_indices@[i as int] < node_names@.len()));
            return None;
        }
        i = i + 1;
    }
    let parents = node_parent_map(node_children);
    if !joint_chains_end(&parents, joint_node_indices, node_children.len()) {
        return None;
    }
    let ghost m = parents@;
    assert forall|j: int| 0 <= j < n implies search_ends(m, joint_node_indices@, #[trigger] joint_node_indices@[j]) by {
        assert(walk_stops(m, joint_node_indices@, joint_node_indices@[j], node_children@.len()));
    }
    Some(build_skeleton(node_children, node_names, joint_node_indices, inverse_bind_poses))
}

/// The node-to-bone map of a skeleton: each bone's node mapped to the bone's
/// index, later bones winning over earlier ones with the same node.
pub open spec fn bone_map_of<M>(bones: Seq<Bone<M>>) -> Map<usize, usize>
    decreases bones.len(),
{
    if bones.len() == 0 {
        Map::empty()
    } else {
        bone_map_of(bones.drop_last()).insert(bones.last().node_index, bones.last().id)
    }
}

/// Maps each bone's node index to the bone's index.
pub fn node_to_bone_map<M>(skeleton: &Skeleton<M>) -> (r: HashMap<usize, usize>)
    ensures
        r@ == bone_map_of(skeleton.bones@),
{
    let mut m: HashMap<usize, usize> = HashMap::new();
    let n = skeleton.bones.len();
    let mut i: usize = 0;
    while i < n
        invariant
            n == skeleton.bones@.len(),
            0 <= i <= n,
            m@ == bone_map_of(skeleton.bones@.take(i as int)),
        decreases n - i,
    {
        m.insert(skeleton.bones[i].node_index, skeleton.bones[i].id);
        proof {
            let t = skeleton.bones@.take(i + 1);
            assert(t.drop_last() =~= skeleton.bones@.take(i as int));
        }
        i = i + 1;
    }
    assert(skeleton.bones@.take(n as int) =~= skeleton.bones@);
    m
}

/// The bone that a vertex's joint index names: the bone mapped from that node,
/// or bone 0 if none is, as a 32-bit index.
pub open spec fn joint_bone(m: Map<usize, usize>, joint: u32) -> u32 {
    if m.dom().contains(joint as usize) {
        m[joint as usize] as u32
    } else {
        0
    }
}

/// Rewrites a vertex's four joint indices (scene node indices) as bone indices.
pub fn map_joint_indices(bone_of_node: &HashMap<usize, usize>, joints: [u32; 4]) -> (r: [u32; 4])
    ensures
        forall|k: int| 0 <= k < 4 ==> r@[k] == joint_bone(bone_of_node@, joints@[k]),
{
    let mut r: [u32; 4] = [0, 0, 0, 0];
    let mut k: usize = 0;
    while k < 4
        invariant
            0 <= k <= 4,
            r@.len() == 4,
            forall|j: int| 0 <= j < k ==> r@[j] == joint_bone(bone_of_node@, joints@[j]),
        decreases 4 - k,
    {
        let node: usize = joints[k] as usize;
        let bone: usize = match bone_of_node.get(&node) {
            Some(b) => *b,
            None => 0,
        };
        r[k] = bone as u32;
        k = k + 1;
    }
    r
}

/// An animation's name: its own, or `animation_` and its position in the
/// scene file when it has none.
pub fn animation_name(name: Option<&str>, position: usize) -> (r: String)
    ensures
        r@ == match name {
            Some(n) => n@,
            None => "animation_"@ + decimal(position as nat),
        },
{
    match name {
        Some(n) => n.to_owned(),
        None => {
            let mut s: String = String::new();
            push_str(&mut s, "animation_");
            push_decimal(&mut s, position);
            assert(s@ =~= "animation_"@ + decimal(position as nat));
            s
        },
    }
}

} // verus!
