use enigma_3d::light::{closest_lights, LightEmissionType, ShadowResolution, MAX_LIGHTS_PER_OBJECT};

#[test]
fn shadow_resolution_values() {
    assert_eq!(ShadowResolution::Low.value(), 512);
    assert_eq!(ShadowResolution::Medium.value(), 1024);
    assert_eq!(ShadowResolution::High.value(), 2048);
    assert_eq!(ShadowResolution::Ultra.value(), 4096);
    assert_eq!(ShadowResolution::Custom(333).value(), 333);
}

#[test]
fn shadow_presets_double() {
    assert_eq!(ShadowResolution::Medium.value(), 2 * ShadowResolution::Low.value());
    assert_eq!(ShadowResolution::High.value(), 2 * ShadowResolution::Medium.value());
    assert_eq!(ShadowResolution::Ultra.value(), 2 * ShadowResolution::High.value());
    assert_eq!(ShadowResolution::Custom(0).value(), 0);
}

#[test]
fn light_emission_types_differ() {
    assert!(LightEmissionType::Source != LightEmissionType::Ambient);
}

#[test]
fn closest_lights_keeps_first_four() {
    assert_eq!(closest_lights(&vec![]), Vec::<usize>::new());
    assert_eq!(closest_lights(&vec![Some(9), None, Some(3)]), vec![0, 1, 2]);
    assert_eq!(closest_lights(&vec![Some(5), Some(1), Some(7), Some(3)]), vec![0, 1, 2, 3]);
}

#[test]
fn closest_lights_replaces_farthest() {
    // the fifth light is nearer than the farthest kept one (slot 2)
    assert_eq!(closest_lights(&vec![Some(5), Some(1), Some(7), Some(3), Some(2)]), vec![0, 1, 4, 3]);
    // a light no nearer than the farthest is left out
    assert_eq!(closest_lights(&vec![Some(5), Some(1), Some(7), Some(3), Some(7)]), vec![0, 1, 2, 3]);
    // among equally far kept lights the first is replaced
    assert_eq!(closest_lights(&vec![Some(4), Some(4), Some(4), Some(4), Some(1), Some(2)]), vec![4, 5, 2, 3]);
    // an unknown distance neither replaces nor is replaced
    assert_eq!(closest_lights(&vec![None, Some(8), Some(6), Some(2), Some(1)]), vec![0, 4, 2, 3]);
    assert_eq!(closest_lights(&vec![Some(8), Some(6), Some(2), Some(1), None]), vec![0, 1, 2, 3]);
}

#[test]
fn closest_lights_are_nearest() {
    let distances: Vec<Option<u32>> = vec![Some(40), Some(10), Some(30), Some(90), Some(20), Some(70), Some(5), Some(60)];
    let kept = closest_lights(&distances);
    assert_eq!(kept.len(), MAX_LIGHTS_PER_OBJECT);
    let mut sorted = kept.clone();
    sorted.sort();
    sorted.dedup();
    assert_eq!(sorted.len(), kept.len());
    for &k in &kept {
        for j in 0..distances.len() {
            if !kept.contains(&j) {
                assert!(distances[k].unwrap() <= distances[j].unwrap());
            }
        }
    }
    assert_eq!(sorted, vec![1, 2, 4, 6]);
}
