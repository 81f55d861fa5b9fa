//! Verified bindings and helpers for FromSoftware game tooling: the debug
//! input blocker, the world layout tables of Dark Souls III and the
//! executable version check.

pub mod input_flags;
pub mod input;
pub mod device_hooks;
pub mod world_info;
pub mod text;
pub mod game_version;
pub mod version_resource;
