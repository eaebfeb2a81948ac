//! What holds of the library as a whole, beyond the contracts of its functions.
pub mod addresses;
pub mod bridge;
pub mod bridging;
pub mod command_line;
pub mod course;
pub mod desktop;
pub mod dialog;
pub mod downloads;
pub mod events;
pub mod generations;
pub mod links;
pub mod manifest;
pub mod messages;
pub mod operations;
pub mod paths;
pub mod pictures;
pub mod places;
pub mod preparing;
pub mod reading;
pub mod runtime;
pub mod selecting;
pub mod settings;
pub mod setup;
pub mod steam;
pub mod text;
pub mod tools;
pub mod vdf;
pub mod windows_system;
