//! What the client decides while the game runs.

pub mod animation;
pub mod bridge;
pub mod camera;
pub mod environment;
pub mod movement;
pub mod npc;
pub mod players;
pub mod stairs;
pub mod visuals;
pub mod weapons;
