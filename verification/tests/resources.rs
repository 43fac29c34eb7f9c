use enigma_3d::resources;
use enigma_3d::example_resources;
use enigma_3d::store::ResourceStore;

#[test]
fn registered_assets_are_returned_by_path() {
    let mut store = ResourceStore::new();
    assert_eq!(resources::suzanne(&store), None);
    store.add_binary(resources::SUZANNE_PATH, vec![1, 2, 3]);
    store.add_text(resources::FRAGMENT_SHADER_PATH, "void main() {}".to_string());
    assert_eq!(resources::suzanne(&store), Some(&[1u8, 2, 3][..]));
    assert_eq!(resources::fragment_shader(&store), Some("void main() {}"));
    assert_eq!(resources::vertex_shader(&store), None);
    // the example scenes keep their own copy of the model
    assert_eq!(example_resources::suzanne(&store), None);
    store.add_binary(example_resources::SUZANNE_PATH, vec![9]);
    assert_eq!(example_resources::suzanne(&store), Some(&[9u8][..]));
    assert_eq!(resources::suzanne(&store), Some(&[1u8, 2, 3][..]));
}

#[test]
fn registering_again_replaces() {
    let mut store = ResourceStore::new();
    store.add_binary(resources::ICON_PATH, vec![1]);
    store.add_binary(resources::UV_CHECKER_PATH, vec![2]);
    store.add_binary(resources::ICON_PATH, vec![3]);
    assert_eq!(resources::icon(&store), Some(&[3u8][..]));
    assert_eq!(resources::uv_checker(&store), Some(&[2u8][..]));
    assert_eq!(resources::SUZANNE_PATH, "res/models/suzanne.glb");
    assert_eq!(example_resources::TREE_PATH, "res/models/chessboard/tree.glb");
}
