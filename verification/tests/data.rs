use enigma_3d::data::{add_state_data, set_state_data_value, state_data_indices, AppStateData};

#[test]
fn state_data_accessors() {
    let mut d = AppStateData::new("speed", 10i32);
    assert_eq!(d.get_name(), "speed");
    assert_eq!(*d.get_value(), 10);
    d.set_value(12);
    assert_eq!(*d.get_value(), 12);
    assert_eq!(d.get_name(), "speed");
}

#[test]
fn set_replaces_first_entry_of_name() {
    let mut store: Vec<AppStateData<i32>> = Vec::new();
    add_state_data(&mut store, "a", 1);
    add_state_data(&mut store, "b", 2);
    add_state_data(&mut store, "a", 3);
    set_state_data_value(&mut store, "a", 9);
    assert_eq!(store.len(), 3);
    assert_eq!(*store[0].get_value(), 9);
    assert_eq!(*store[1].get_value(), 2);
    assert_eq!(*store[2].get_value(), 3);
}

#[test]
fn set_adds_missing_name() {
    let mut store: Vec<AppStateData<&str>> = Vec::new();
    set_state_data_value(&mut store, "greeting", "hello");
    assert_eq!(store.len(), 1);
    assert_eq!(store[0].get_name(), "greeting");
    assert_eq!(*store[0].get_value(), "hello");
}

#[test]
fn indices_of_name() {
    let mut store: Vec<AppStateData<u8>> = Vec::new();
    add_state_data(&mut store, "x", 1);
    add_state_data(&mut store, "y", 2);
    add_state_data(&mut store, "x", 3);
    assert_eq!(state_data_indices(&store, "x"), vec![0, 2]);
    assert_eq!(state_data_indices(&store, "y"), vec![1]);
    assert_eq!(state_data_indices(&store, "z"), Vec::<usize>::new());
}

#[test]
fn get_after_set() {
    let mut store: Vec<AppStateData<i64>> = Vec::new();
    add_state_data(&mut store, "other", 5);
    set_state_data_value(&mut store, "key", 7);
    let i = state_data_indices(&store, "key")[0];
    assert_eq!(*store[i].get_value(), 7);
    let j = state_data_indices(&store, "other")[0];
    assert_eq!(*store[j].get_value(), 5);
}

#[test]
fn value_changed_in_place() {
    let mut d = AppStateData::new("speed", 10i32);
    *d.get_value_mut() += 5;
    assert_eq!(*d.get_value(), 15);
    assert_eq!(d.get_name(), "speed");
}
