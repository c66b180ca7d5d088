//! Verified core of a manager for Ultimate 64 / Ultimate II+ devices.
use vstd::prelude::*;

pub mod text;
pub mod petscii;
pub mod mod_info;
pub mod file_types;
pub mod remote_browser;
pub mod port64;
pub mod net_utils;
pub mod profiles;
pub mod profile_api;
pub mod music_player;
pub mod memory_editor;
pub mod music_ops;
pub mod profile_repo;
pub mod sorting;
pub mod pdf_preview;
pub mod config_tree;
pub mod profile_manager;
pub mod song_lengths;

verus! {
}
