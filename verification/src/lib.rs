//! Decision logic of a modular multiplayer game: server, client and asset viewers.

pub mod adm;
pub mod ads;
pub mod anim_sets;
pub mod auth_ui;
pub mod bytes;
pub mod client_config;
pub mod console;
pub mod drawable;
pub mod folds;
pub mod gameplay;
pub mod glb;
pub mod gui_render;
pub mod hierarchy;
pub mod http_files;
pub mod input;
pub mod json;
pub mod lobby;
pub mod log_filter;
pub mod mesh_indices;
pub mod names;
pub mod native_assets;
pub mod nui;
pub mod path_lists;
pub mod paths;
pub mod physics;
pub mod scalar;
pub mod server_config;
pub mod startup;
pub mod streaming;
pub mod text;
pub mod typing;
pub mod viewer;
