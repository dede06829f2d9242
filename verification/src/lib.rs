//! Decision logic of the CS2 game-state to buttplug.io bridge: configuration,
//! the timed command queue, the device-command rules, the update check and
//! the launcher's settings panel.

pub mod config;
pub mod devices;
pub mod launcher;
pub mod script;
pub mod text;
pub mod timer;
pub mod version;
