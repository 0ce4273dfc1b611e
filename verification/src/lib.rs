//! Verified core of the gutzgutz game-session toolkit.
pub mod text;
pub mod atlas_image;
pub mod atlas_build;
pub mod atlas_manifest;
pub mod atlas_pack;
pub mod atlas_message;
pub mod input_source;
pub mod lifecycle;
pub mod input_map;
pub mod devtools;
pub mod atlas_registry;
pub mod steam;
pub mod input_config;
pub mod save;
pub mod funkoro_nest;
pub mod funkoro;
pub mod ui;
