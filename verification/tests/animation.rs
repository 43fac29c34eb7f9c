use enigma_3d::animation::{surrounding_keyframes, Bone, Skeleton};

fn bone(name: &str, id: usize, parent: Option<usize>) -> Bone<u8> {
    Bone { name: name.to_string(), id, node_index: id, parent_id: parent, inverse_bind_pose: 0u8 }
}

#[test]
fn valid_skeleton_validates() {
    let s = Skeleton { bones: vec![bone("root", 0, None), bone("hip", 1, Some(0))] };
    assert!(s.validate().is_ok());
    let empty: Skeleton<u8> = Skeleton { bones: vec![] };
    assert!(empty.validate().is_ok());
}

#[test]
fn invalid_parent_is_reported() {
    let s = Skeleton { bones: vec![bone("root", 0, None), bone("hip", 1, Some(5)), bone("leg", 2, Some(9))] };
    let err = s.validate().unwrap_err();
    assert!(err.saves_to_disk());
    let entries = enigma_3d::logging::EnigmaLog::get(&err);
    assert_eq!(entries.len(), 1);
    assert_eq!(
        entries[0].1,
        "Invalid parent ID 5 for bone \"hip\" with id 1. There are only 3 bones in the skeleton."
    );
}

#[test]
fn try_fix_drops_bad_links() {
    let mut s = Skeleton { bones: vec![bone("root", 0, None), bone("hip", 1, Some(5)), bone("leg", 2, Some(1))] };
    assert!(s.validate().is_err());
    assert!(s.try_fix().is_ok());
    assert_eq!(s.bones[0].parent_id, None);
    assert_eq!(s.bones[1].parent_id, None);
    assert_eq!(s.bones[2].parent_id, Some(1));
    assert!(s.validate().is_ok());
    assert!(s.try_fix().is_ok());
    assert_eq!(s.bones[2].parent_id, Some(1));
}

#[test]
fn keyframes_around_a_time() {
    let times = vec![Some(10), Some(20), Some(30), Some(40)];
    // before or at the first keyframe
    assert_eq!(surrounding_keyframes(&times, Some(5)), (0, 0));
    assert_eq!(surrounding_keyframes(&times, Some(10)), (0, 0));
    // at or after the last keyframe
    assert_eq!(surrounding_keyframes(&times, Some(40)), (3, 3));
    assert_eq!(surrounding_keyframes(&times, Some(99)), (3, 3));
    // between keyframes; a time on a keyframe takes the pair before it
    assert_eq!(surrounding_keyframes(&times, Some(25)), (1, 2));
    assert_eq!(surrounding_keyframes(&times, Some(20)), (0, 1));
    // a single keyframe
    assert_eq!(surrounding_keyframes(&vec![Some(7)], Some(3)), (0, 0));
}

#[test]
fn keyframes_around_an_unknown_time() {
    let times = vec![Some(10), Some(20), Some(30)];
    // a time that compares with nothing falls through to the first keyframe
    assert_eq!(surrounding_keyframes(&times, None), (0, 0));
    // keyframe times that compare with nothing are skipped over
    assert_eq!(surrounding_keyframes(&vec![Some(10), None, Some(30)], Some(20)), (0, 0));
    assert_eq!(surrounding_keyframes(&vec![Some(10), Some(15), None, Some(30)], Some(12)), (0, 1));
}
