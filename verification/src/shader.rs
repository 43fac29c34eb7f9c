//! Shader sources: a vertex, a fragment and an optional geometry stage, and
//! the plain form they are stored in.

use vstd::prelude::*;
use crate::text::push_str;

verus! {

/// The vertex stage of the default shader.
pub const DEFAULT_VERTEX_SHADER: &'static str = r#"
            #version 140
            uniform float time;
            uniform mat4 matrix;
            in vec3 position;
            void main() {
                gl_Position = matrix * vec4(position, 1.0);
            }
        "#;

/// The fragment stage of the default shader: everything magenta.
pub const DEFAULT_FRAGMENT_SHADER: &'static str = r#"
            #version 140
            uniform float time;
            out vec4 color;
            void main() {
                color = vec4(1.0, 0.0, 1.0, 1.0);
            }
        "#;

/// The sources of a shader in the form they are stored in.
pub struct ShaderSerializer {
    pub fragment_shader: String,
    pub vertex_shader: String,
    pub geometry_shader: Option<String>,
}

/// The sources of a shader program.
pub struct Shader {
    pub fragment_shader: String,
    pub vertex_shader: String,
    pub geometry_shader: Option<String>,
}

/// An optional source, as characters.
pub open spec fn opt_view(s: Option<String>) -> Option<Seq<char>> {
    match s {
        Some(t) => Some(t@),
        None => None,
    }
}

/// An optional string slice, as characters.
pub open spec fn opt_str_view(s: Option<&str>) -> Option<Seq<char>> {
    match s {
        Some(t) => Some(t@),
        None => None,
    }
}

/// A shader's stages as characters: vertex, fragment, geometry.
pub struct ShaderView {
    pub vertex: Seq<char>,
    pub fragment: Seq<char>,
    pub geometry: Option<Seq<char>>,
}

impl View for Shader {
    type V = ShaderView;

    open spec fn view(&self) -> ShaderView {
        ShaderView {
            vertex: self.vertex_shader@,
            fragment: self.fragment_shader@,
            geometry: opt_view(self.geometry_shader),
        }
    }
}

impl View for ShaderSerializer {
    type V = ShaderView;

    open spec fn view(&self) -> ShaderView {
        ShaderView {
            vertex: self.vertex_shader@,
            fragment: self.fragment_shader@,
            geometry: opt_view(self.geometry_shader),
        }
    }
}

/// The text a shader is displayed as: its vertex, fragment and geometry
/// sources one after the other.
pub open spec fn display_text(v: ShaderView) -> Seq<char> {
    v.vertex + v.fragment + match v.geometry {
        Some(g) => g,
        None => Seq::empty(),
    }
}

fn clone_opt(s: &Option<String>) -> (r: Option<String>)
    ensures
        opt_view(r) == opt_view(*s),
{
    match s {
        Some(t) => Some(t.clone()),
        None => None,
    }
}

impl Clone for ShaderSerializer {
    fn clone(&self) -> (r: Self)
        ensures
            r@ == self@,
    {
        ShaderSerializer {
            fragment_shader: self.fragment_shader.clone(),
            vertex_shader: self.vertex_shader.clone(),
            geometry_shader: clone_opt(&self.geometry_shader),
        }
    }
}

impl Clone for Shader {
    fn clone(&self) -> (r: Self)
        ensures
            r@ == self@,
    {
        Shader {
            fragment_shader: self.fragment_shader.clone(),
            vertex_shader: self.vertex_shader.clone(),
            geometry_shader: clone_opt(&self.geometry_shader),
        }
    }
}

impl Shader {
    /// A shader whose vertex and fragment sources are empty and that has no
    /// geometry stage.
    pub fn new() -> (r: Self)
        ensures
            r@.vertex.len() == 0,
            r@.fragment.len() == 0,
            r@.geometry is None,
    {
        Shader {
            fragment_shader: String::new(),
            vertex_shader: String::new(),
            geometry_shader: None,
        }
    }

    /// The shader that a stored form holds.
    pub fn from_serializer(serializer: ShaderSerializer) -> (r: Self)
        ensures
            r@ == serializer@,
    {
        Shader {
            fragment_shader: serializer.fragment_shader,
            vertex_shader: serializer.vertex_shader,
            geometry_shader: serializer.geometry_shader,
        }
    }

    /// The stored form of this shader.
    pub fn to_serializer(&self) -> (r: ShaderSerializer)
        ensures
            r@ == self@,
    {
        ShaderSerializer {
            fragment_shader: self.fragment_shader.clone(),
            vertex_shader: self.vertex_shader.clone(),
            geometry_shader: clone_opt(&self.geometry_shader),
        }
    }

    pub fn set_fragment_shader(&mut self, fragment_shader: String)
        ensures
            final(self)@ == (ShaderView { fragment: fragment_shader@, ..old(self)@ }),
    {
        self.fragment_shader = fragment_shader;
    }

    pub fn set_vertex_shader(&mut self, vertex_shader: String)
        ensures
            final(self)@ == (ShaderView { vertex: vertex_shader@, ..old(self)@ }),
    {
        self.vertex_shader = vertex_shader;
    }

    pub fn set_geometry_shader(&mut self, geometry_shader: String)
        ensures
            final(self)@ == (ShaderView { geometry: Some(geometry_shader@), ..old(self)@ }),
    {
        self.geometry_shader = Some(geometry_shader);
    }

    pub fn get_fragment_shader(&self) -> (r: String)
        ensures
            r@ == self@.fragment,
    {
        self.fragment_shader.clone()
    }

    pub fn get_vertex_shader(&self) -> (r: String)
        ensures
            r@ == self@.vertex,
    {
        self.vertex_shader.clone()
    }

    pub fn get_geometry_shader(&self) -> (r: Option<String>)
        ensures
            opt_view(r) == self@.geometry,
    {
        clone_opt(&self.geometry_shader)
    }

    /// A shader made of the given sources.
    pub fn from_strings(vertex_shader: &str, fragment_shader: &str, geometry_shader: Option<&str>) -> (r: Self)
        ensures
            r@ == (ShaderView {
                vertex: vertex_shader@,
                fragment: fragment_shader@,
                geometry: opt_str_view(geometry_shader),
            }),
    {
        Shader {
            fragment_shader: fragment_shader.to_owned(),
            vertex_shader: vertex_shader.to_owned(),
            geometry_shader: match geometry_shader {
                Some(g) => Some(g.to_owned()),
                None => None,
            },
        }
    }

    /// The default shader: a vertex stage that applies `matrix` to each
    /// position and a fragment stage that paints everything magenta.
    pub fn default() -> (r: Self)
        ensures
            r@ == (ShaderView {
                vertex: DEFAULT_VERTEX_SHADER@,
                fragment: DEFAULT_FRAGMENT_SHADER@,
                geometry: None,
            }),
    {
        Shader {
            fragment_shader: DEFAULT_FRAGMENT_SHADER.to_owned(),
            vertex_shader: DEFAULT_VERTEX_SHADER.to_owned(),
            geometry_shader: None,
        }
    }

    /// The text the shader is displayed as: the vertex source, then the
    /// fragment source, then the geometry source if there is one.
    pub fn to_string(&self) -> (r: String)
        ensures
            r@ == display_text(self@),
    {
        let mut s = self.vertex_shader.clone();
        push_str(&mut s, self.fragment_shader.as_str());
        match &self.geometry_shader {
            Some(g) => push_str(&mut s, g.as_str()),
            None => {},
        }
        assert(s@ =~= display_text(self@));
        s
    }
}

impl Default for Shader {
    fn default() -> (r: Self)
        ensures
            r@ == (ShaderView {
                vertex: DEFAULT_VERTEX_SHADER@,
                fragment: DEFAULT_FRAGMENT_SHADER@,
                geometry: None,
            }),
    {
        Shader::default()
    }
}

} // verus!
