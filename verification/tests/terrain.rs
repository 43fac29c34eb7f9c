use enigma_3d::terrain::{gradient_index, hash2};

#[test]
fn lattice_hash_values() {
    assert_eq!(hash2(0, 0), 0);
    assert_eq!(hash2(1, 0), 2618727991);
    assert_eq!(hash2(0, 1), 1749550459);
    assert_eq!(hash2(-1, -1), 1448538376);
    assert_eq!(hash2(123456, -654321), 1312272906);
}

#[test]
fn gradient_selector() {
    assert_eq!(gradient_index(0), 0);
    assert_eq!(gradient_index(7), 3);
    assert_eq!(gradient_index(2618727991), 2618727991 % 4);
    for h in 0..100u32 {
        assert!(gradient_index(hash2(h as i32, 3)) < 4);
    }
}
