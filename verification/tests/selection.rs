use enigma_3d::selection::{is_selected, select_id};

#[test]
fn selecting_twice_keeps_one() {
    let mut sel = Vec::new();
    select_id(&mut sel, 7);
    select_id(&mut sel, 9);
    select_id(&mut sel, 7);
    assert_eq!(sel, vec![7, 9]);
    assert!(is_selected(&sel, 9));
    assert!(!is_selected(&sel, 1));
}
