use enigma_3d::audio::{add_audio, find_clip, AudioClip};

#[test]
fn clip_from_resource() {
    let c = AudioClip::from_resource(&[1, 2, 3], "click");
    assert_eq!(c.name, "click");
    assert_eq!(c.data(), &[1, 2, 3]);
}

#[test]
fn clips_are_added_once_per_name() {
    let mut clips = Vec::new();
    assert!(add_audio(&mut clips, AudioClip::from_resource(&[1], "music")));
    assert!(add_audio(&mut clips, AudioClip::from_resource(&[2], "click")));
    assert!(!add_audio(&mut clips, AudioClip::from_resource(&[3], "music")));
    assert_eq!(clips.len(), 2);
    assert_eq!(find_clip(&clips, "music"), Some(0));
    assert_eq!(clips[0].data(), &[1]);
    assert_eq!(find_clip(&clips, "click"), Some(1));
    assert_eq!(find_clip(&clips, "boom"), None);
}
