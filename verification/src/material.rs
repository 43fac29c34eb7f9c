//! The texture slots of a material.

use vstd::prelude::*;

verus! {

/// Which of a material's textures an operation sets.
#[derive(PartialEq, Eq, Structural, Debug, Clone, Copy)]
pub enum TextureType {
    Albedo,
    Normal,
    Roughness,
    Metallic,
    Emissive,
}

} // verus!
