use enigma_3d::shader::{Shader, ShaderSerializer};

#[test]
fn new_shader_is_empty() {
    let s = Shader::new();
    assert_eq!(s.get_vertex_shader(), "");
    assert_eq!(s.get_fragment_shader(), "");
    assert_eq!(s.get_geometry_shader(), None);
}

#[test]
fn default_shader_sources() {
    let s = Shader::default();
    assert!(s.get_vertex_shader().contains("gl_Position = matrix * vec4(position, 1.0);"));
    assert!(s.get_fragment_shader().contains("color = vec4(1.0, 0.0, 1.0, 1.0);"));
    assert_eq!(s.get_geometry_shader(), None);
    let d: Shader = Default::default();
    assert_eq!(d.get_vertex_shader(), s.get_vertex_shader());
}

#[test]
fn from_strings_and_getters() {
    let s = Shader::from_strings("v", "f", Some("g"));
    assert_eq!(s.get_vertex_shader(), "v");
    assert_eq!(s.get_fragment_shader(), "f");
    assert_eq!(s.get_geometry_shader(), Some("g".to_string()));
    let t = Shader::from_strings("v", "f", None);
    assert_eq!(t.get_geometry_shader(), None);
}

#[test]
fn setters_replace_one_stage() {
    let mut s = Shader::from_strings("v", "f", None);
    s.set_fragment_shader("f2".to_string());
    assert_eq!(s.get_fragment_shader(), "f2");
    assert_eq!(s.get_vertex_shader(), "v");
    s.set_vertex_shader("v2".to_string());
    assert_eq!(s.get_vertex_shader(), "v2");
    s.set_geometry_shader("g2".to_string());
    assert_eq!(s.get_geometry_shader(), Some("g2".to_string()));
}

#[test]
fn serializer_roundtrip() {
    let s = Shader::from_strings("vert", "frag", Some("geom"));
    let ser: ShaderSerializer = s.to_serializer();
    assert_eq!(ser.vertex_shader, "vert");
    assert_eq!(ser.fragment_shader, "frag");
    assert_eq!(ser.geometry_shader, Some("geom".to_string()));
    let back = Shader::from_serializer(ser.clone());
    assert_eq!(back.get_vertex_shader(), "vert");
    assert_eq!(back.get_fragment_shader(), "frag");
    assert_eq!(back.get_geometry_shader(), Some("geom".to_string()));
}

#[test]
fn display_text_concatenates() {
    assert_eq!(Shader::from_strings("a", "b", Some("c")).to_string(), "abc");
    assert_eq!(Shader::from_strings("a", "b", None).to_string(), "ab");
    let c = Shader::from_strings("x", "y", None).clone();
    assert_eq!(c.to_string(), "xy");
}
