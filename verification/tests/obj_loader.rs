use enigma_3d::obj_loader::{obj_lines_readable, parse_obj_lines, ObjVertex};

fn lines(src: &[&str]) -> Vec<String> {
    src.iter().map(|s| s.to_string()).collect()
}

fn v(position: usize, texcoord: Option<usize>, normal: Option<usize>) -> ObjVertex {
    ObjVertex { position, texcoord, normal }
}

#[test]
fn attribute_lines_are_kept_as_words() {
    let l = lines(&["# a cube", "v 0 0 0", "v  1 0 0   0.5 0.5 0.5", "vt 0 1", "vn 0 0 1", "o name", ""]);
    assert!(obj_lines_readable(&l));
    let d = parse_obj_lines(&l);
    assert_eq!(d.positions, vec![
        vec!["v".to_string(), "0".to_string(), "0".to_string(), "0".to_string()],
        vec!["v", "1", "0", "0", "0.5", "0.5", "0.5"].into_iter().map(String::from).collect::<Vec<_>>(),
    ]);
    assert_eq!(d.texcoords.len(), 1);
    assert_eq!(d.normals.len(), 1);
    assert!(d.vertices.is_empty());
}

#[test]
fn face_corners_share_vertices() {
    let l = lines(&["v 0 0 0", "v 1 0 0", "vt 0 0", "vn 0 0 1", "f 1/1/1 2/1/1 1/1/1", "f 2 1 2"]);
    assert!(obj_lines_readable(&l));
    let d = parse_obj_lines(&l);
    assert_eq!(d.vertices, vec![v(0, None, None), v(1, None, None), v(1, None, None), v(0, None, None)]);
}

#[test]
fn texture_and_normal_lines_are_picked_by_number() {
    let l = lines(&["v 0 0 0", "vt 0 0", "vt 1 1", "vn 0 1 0", "vn 1 0 0", "f 1/1/1 1/2 1//1"]);
    assert!(obj_lines_readable(&l));
    let d = parse_obj_lines(&l);
    assert_eq!(d.vertices, vec![v(0, Some(1), Some(1)), v(0, None, None), v(0, None, Some(1))]);
}

#[test]
fn unreadable_faces() {
    assert!(!obj_lines_readable(&lines(&["v 0 0 0", "f 0 1 1"])));
    assert!(!obj_lines_readable(&lines(&["v 0 0 0", "f 1 1"])));
    assert!(!obj_lines_readable(&lines(&["v 0 0 0", "f 1 1 2"])));
    assert!(!obj_lines_readable(&lines(&["f 1 1 1", "v 0 0 0"])));
    assert!(!obj_lines_readable(&lines(&["v 0 0 0", "f 1/0 1 1"])));
    assert!(!obj_lines_readable(&lines(&["v 0 0 0", "f x 1 1"])));
    assert!(obj_lines_readable(&lines(&["v 0 0 0", "f 1/x/y 1 +1"])));
}
