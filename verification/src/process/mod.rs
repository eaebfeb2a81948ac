//! Finding and starting the game on Linux.
pub mod game;
pub mod libraries;
pub mod proton;
pub mod vdf;
