use enigma_3d::event::{
    frame_actions, frame_nanos, held_key_targets, injection_modifiers, key_press_targets, mouse_held_targets,
    mouse_input_targets, EventCharacteristic, EventModifiers, FrameAction, InputState,
};

fn none() -> EventModifiers {
    EventModifiers::default()
}

#[test]
fn modifiers_constructors() {
    let m = EventModifiers::new(true, false, true);
    assert!(m.ctrl && !m.shift && m.alt);
    assert_eq!(EventModifiers::default(), EventModifiers::new(false, false, false));
    assert!(EventModifiers::new(true, false, false) != EventModifiers::default());
    assert_eq!(injection_modifiers(None), EventModifiers::default());
    assert_eq!(injection_modifiers(Some(m)), m);
}

#[test]
fn key_press_fires_matching_injections_in_order() {
    let ctrl = EventModifiers::new(true, false, false);
    let inj = vec![
        (EventCharacteristic::KeyPress(1), none()),
        (EventCharacteristic::KeyPress(2), none()),
        (EventCharacteristic::KeyPress(1), ctrl),
        (EventCharacteristic::KeyDown(1), none()),
        (EventCharacteristic::KeyPress(1), none()),
    ];
    assert_eq!(key_press_targets(&inj, Some(1), true, none()), vec![0, 4]);
    assert_eq!(key_press_targets(&inj, Some(1), true, ctrl), vec![2]);
    assert_eq!(key_press_targets(&inj, Some(1), false, none()), Vec::<usize>::new());
    assert_eq!(key_press_targets(&inj, None, true, none()), Vec::<usize>::new());
}

#[test]
fn mouse_input_fires_and_tracks_button() {
    let inj = vec![
        (EventCharacteristic::MouseDown(0), none()),
        (EventCharacteristic::MousePress(1), none()),
        (EventCharacteristic::MouseDown(1), none()),
        (EventCharacteristic::KeyPress(0), none()),
    ];
    let (fired, held) = mouse_input_targets(&inj, 0, true, none());
    assert_eq!(fired, vec![0, 1]);
    assert_eq!(held, Some(true));
    let (fired, held) = mouse_input_targets(&inj, 0, false, none());
    assert_eq!(fired, Vec::<usize>::new());
    assert_eq!(held, Some(false));
    let (fired, held) = mouse_input_targets(&inj, 2, true, none());
    assert_eq!(fired, vec![1]);
    assert_eq!(held, None);
}

#[test]
fn held_keys_fire_per_key_in_order() {
    let inj = vec![
        (EventCharacteristic::KeyDown(5), none()),
        (EventCharacteristic::KeyDown(6), none()),
        (EventCharacteristic::KeyDown(5), none()),
        (EventCharacteristic::KeyPress(5), none()),
    ];
    assert_eq!(held_key_targets(&inj, &vec![6, 5], none()), vec![1, 0, 2]);
    assert_eq!(held_key_targets(&inj, &vec![], none()), Vec::<usize>::new());
    let shift = EventModifiers::new(false, true, false);
    assert_eq!(held_key_targets(&inj, &vec![5], shift), Vec::<usize>::new());
}

#[test]
fn mouse_held_repeat() {
    let inj = vec![
        (EventCharacteristic::MouseDown(0), none()),
        (EventCharacteristic::MousePress(0), none()),
        (EventCharacteristic::MouseDown(3), none()),
        (EventCharacteristic::MouseScroll, none()),
    ];
    assert_eq!(mouse_held_targets(&inj, true, none()), vec![0, 2]);
    assert_eq!(mouse_held_targets(&inj, false, none()), Vec::<usize>::new());
}

#[test]
fn frame_length() {
    assert_eq!(frame_nanos(60), 16_666_666);
    assert_eq!(frame_nanos(1), 1_000_000_000);
}

#[test]
fn held_keys_are_recorded() {
    let mut st = InputState::new();
    assert!(st.held_keys().is_empty());
    assert!(!st.is_mouse_down());
    st.record_key(Some(5), true);
    st.record_key(Some(7), true);
    st.record_key(Some(5), true);
    assert_eq!(st.held_keys(), &vec![5, 7]);
    st.record_key(None, true);
    assert_eq!(st.held_keys(), &vec![5, 7]);
    st.record_key(Some(5), false);
    assert_eq!(st.held_keys(), &vec![7]);
    st.record_key(Some(9), false);
    assert_eq!(st.held_keys(), &vec![7]);
    st.record_mouse(Some(true));
    assert!(st.is_mouse_down());
    st.record_mouse(None);
    assert!(st.is_mouse_down());
    st.record_mouse(Some(false));
    assert!(!st.is_mouse_down());
}

#[test]
fn frame_runs_held_then_updates() {
    let inj = vec![
        (EventCharacteristic::KeyDown(3), none()),
        (EventCharacteristic::MouseDown(0), none()),
        (EventCharacteristic::KeyDown(4), none()),
        (EventCharacteristic::KeyDown(3), none()),
    ];
    let held = vec![4, 3];
    assert_eq!(
        frame_actions(&inj, &held, true, none(), 2),
        vec![
            FrameAction::HeldMouse(1),
            FrameAction::HeldKey(2),
            FrameAction::HeldKey(0),
            FrameAction::HeldKey(3),
            FrameAction::Update(0),
            FrameAction::Update(1),
        ]
    );
    assert_eq!(frame_actions(&inj, &vec![], false, none(), 1), vec![FrameAction::Update(0)]);
}
