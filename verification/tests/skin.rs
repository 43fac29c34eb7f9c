use std::collections::HashMap;
use enigma_3d::skin::{
    animation_name, build_skeleton, find_parent_bone_id, import_skeleton,
    joint_chains_end, map_joint_indices, node_parent_map, node_to_bone_map, parent_search_ends,
};

// node tree: 0 -> [1, 4], 1 -> [2], 2 -> [3], 4 -> []
fn children() -> Vec<Vec<usize>> {
    vec![vec![1, 4], vec![2], vec![3], vec![], vec![]]
}

#[test]
fn parent_map_from_children() {
    let m = node_parent_map(&children());
    assert_eq!(m.len(), 4);
    assert_eq!(m.get(&1), Some(&0));
    assert_eq!(m.get(&4), Some(&0));
    assert_eq!(m.get(&2), Some(&1));
    assert_eq!(m.get(&3), Some(&2));
    assert_eq!(m.get(&0), None);
    // a node listed twice gets the last parent
    let m2 = node_parent_map(&vec![vec![2], vec![2], vec![]]);
    assert_eq!(m2.get(&2), Some(&1));
}

#[test]
fn parent_bone_is_nearest_joint_ancestor() {
    let m = node_parent_map(&children());
    let joints = vec![3, 1, 0];
    assert_eq!(find_parent_bone_id(3, &m, &joints), Some(1));
    assert_eq!(find_parent_bone_id(1, &m, &joints), Some(2));
    assert_eq!(find_parent_bone_id(0, &m, &joints), None);
    assert_eq!(find_parent_bone_id(4, &m, &joints), Some(2));
    assert_eq!(find_parent_bone_id(2, &m, &vec![5]), None);
}

#[test]
fn skeleton_from_nodes() {
    let names = vec!["root".to_string(), "spine".to_string(), "neck".to_string(), "head".to_string(), "arm".to_string()];
    let joints = vec![0, 2, 3];
    let poses = vec![10u32, 20, 30];
    let s = build_skeleton(&children(), &names, &joints, &poses);
    assert_eq!(s.bones.len(), 3);
    assert_eq!(s.bones[0].name, "root");
    assert_eq!(s.bones[0].parent_id, None);
    assert_eq!(s.bones[1].name, "neck");
    assert_eq!(s.bones[1].node_index, 2);
    assert_eq!(s.bones[1].parent_id, Some(0));
    assert_eq!(s.bones[2].id, 2);
    assert_eq!(s.bones[2].parent_id, Some(1));
    assert_eq!(s.bones[2].inverse_bind_pose, 30);
    assert!(s.validate().is_ok());
}

#[test]
fn joint_indices_become_bone_indices() {
    let names = vec!["a".to_string(), "b".to_string(), "c".to_string(), "d".to_string(), "e".to_string()];
    let s = build_skeleton(&children(), &names, &vec![4, 2], &vec![(), ()]);
    let map = node_to_bone_map(&s);
    let expected: HashMap<usize, usize> = [(4, 0), (2, 1)].into_iter().collect();
    assert_eq!(map, expected);
    assert_eq!(map_joint_indices(&map, [2, 4, 7, 0]), [1, 0, 0, 0]);
}

#[test]
fn animation_names() {
    assert_eq!(animation_name(Some("walk"), 3), "walk");
    assert_eq!(animation_name(None, 0), "animation_0");
    assert_eq!(animation_name(None, 42), "animation_42");
}

#[test]
fn parent_search_respects_bound() {
    let m = node_parent_map(&children());
    // from 3 the walk 3 -> 2 -> 1 -> 0 stops at 0, which has no parent
    assert!(parent_search_ends(&m, &vec![], 3, 4));
    assert!(!parent_search_ends(&m, &vec![], 3, 3));
    // with joint 1 it stops at 2, whose parent is that joint
    assert!(parent_search_ends(&m, &vec![1], 3, 2));
    assert!(!parent_search_ends(&m, &vec![1], 3, 1));
    assert!(!parent_search_ends(&m, &vec![], 0, 0));
    assert!(parent_search_ends(&m, &vec![], 0, 1));
    // a cycle 0 -> 1 -> 0 without a joint never stops; with a joint on it, it does
    let cyclic = node_parent_map(&vec![vec![1], vec![0]]);
    assert!(!parent_search_ends(&cyclic, &vec![], 0, 10));
    assert!(parent_search_ends(&cyclic, &vec![0], 0, 2));
    assert!(joint_chains_end(&m, &vec![3, 4], 5));
    assert!(!joint_chains_end(&node_parent_map(&vec![vec![1], vec![0, 2], vec![]]), &vec![2], 5));
}

#[test]
fn import_skeleton_checks_inputs() {
    let names: Vec<String> = vec!["a", "b", "c", "d", "e"].into_iter().map(String::from).collect();
    let s = import_skeleton(&children(), &names, &vec![3, 1, 0], &vec![7u8, 8, 9]).unwrap();
    assert_eq!(s.bones.len(), 3);
    assert_eq!(s.bones[0].name, "d");
    assert_eq!(s.bones[0].parent_id, Some(1));
    assert_eq!(s.bones[1].parent_id, Some(2));
    assert_eq!(s.bones[2].parent_id, None);
    assert_eq!(s.bones[2].inverse_bind_pose, 9);
    // one pose short
    assert!(import_skeleton(&children(), &names, &vec![3, 1], &vec![7u8]).is_none());
    // a joint that is no node
    assert!(import_skeleton(&children(), &names, &vec![9], &vec![7u8]).is_none());
    // a cycle through the joint: the walk finds the joint itself
    let cyclic = vec![vec![1], vec![0]];
    let two: Vec<String> = vec!["x".to_string(), "y".to_string()];
    let looped = import_skeleton(&cyclic, &two, &vec![0], &vec![1u8]).unwrap();
    assert_eq!(looped.bones[0].parent_id, Some(0));
    // a cycle without a joint above a joint: the walk never stops
    let three: Vec<String> = vec!["x".to_string(), "y".to_string(), "z".to_string()];
    assert!(import_skeleton(&vec![vec![1], vec![0, 2], vec![]], &three, &vec![2], &vec![1u8]).is_none());
}
