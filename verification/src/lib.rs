//! The decisions of the Project KNOCKOUT launcher, stated as contracts and proved.

pub mod arguments;
pub mod desktop;
pub mod dialog;
pub mod digest;
pub mod failure;
pub mod game_manifest;
pub mod generations;
pub mod graphics;
pub mod install;
pub mod launch;
pub mod launcher_update;
pub mod laws;
pub mod links;
pub mod log;
pub mod p2p;
pub mod painting;
pub mod paths;
pub mod picker;
pub mod process;
pub mod process_windows;
pub mod scenes;
pub mod settings;
pub mod text;
pub mod upkeep;
pub mod web;
pub mod wide;
pub mod windows;
pub mod windows_paths;
pub mod windows_setup;
