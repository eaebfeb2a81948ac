//! Player transport used by the launcher.
pub mod bridge;
pub mod protocol;
pub mod transport;
pub mod wire;
