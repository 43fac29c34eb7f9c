use enigma_3d::shadow::{face_viewport, Viewport};

#[test]
fn cube_faces_in_atlas() {
    assert_eq!(face_viewport(0, 512), Viewport { left: 0, bottom: 0, width: 512, height: 512 });
    assert_eq!(face_viewport(1, 512), Viewport { left: 512, bottom: 0, width: 512, height: 512 });
    assert_eq!(face_viewport(3, 512), Viewport { left: 512, bottom: 512, width: 512, height: 512 });
    assert_eq!(face_viewport(4, 512), Viewport { left: 0, bottom: 1024, width: 512, height: 512 });
    assert_eq!(face_viewport(5, 1024), Viewport { left: 1024, bottom: 2048, width: 1024, height: 1024 });
    assert_eq!(face_viewport(7, 0), Viewport { left: 0, bottom: 0, width: 0, height: 0 });
}

#[test]
fn faces_do_not_overlap() {
    let res = 256u32;
    for f in 0..6usize {
        for g in 0..6usize {
            if f == g {
                continue;
            }
            let a = face_viewport(f, res);
            let b = face_viewport(g, res);
            let disjoint = a.left + a.width <= b.left
                || b.left + b.width <= a.left
                || a.bottom + a.height <= b.bottom
                || b.bottom + b.height <= a.bottom;
            assert!(disjoint);
            assert!(a.left + a.width <= 2 * res && a.bottom + a.height <= 3 * res);
        }
    }
}

#[test]
fn face_row_is_taken_in_32_bits() {
    let face: usize = (1usize << 33) + 5;
    assert_eq!(face_viewport(face, 100), Viewport { left: 100, bottom: 200, width: 100, height: 100 });
}
