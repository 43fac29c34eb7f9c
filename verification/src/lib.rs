//! A verified core for a small 3D engine: the parts of the engine that decide
//! and compute on plain values (logging, shaders, state data, event dispatch,
//! skeletons, shadow atlas layout, terrain hashing) with their contracts.

pub mod text;
pub mod clock;
pub mod logging;
pub mod shader;
pub mod data;
pub mod light;
pub mod material;
pub mod shadow;
pub mod terrain;
pub mod event;
pub mod animation;
pub mod skin;
pub mod audio;
pub mod store;
pub mod resources;
pub mod example_resources;
pub mod selection;
pub mod formatting;
pub mod pixels;
pub mod obj_loader;
