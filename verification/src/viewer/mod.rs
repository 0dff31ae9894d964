//! What the viewers of models and maps decide.

pub mod animation;
pub mod loader;
pub mod lod;
pub mod map;
pub mod map_load;
pub mod overlay;
pub mod painter;
pub mod rig;
pub mod settings;
pub mod textures;
