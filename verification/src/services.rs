//! The services: what acts on the configuration.

pub mod action;
pub mod config;
pub mod group;
pub mod hotkey;

pub use action::ActionService;
pub use config::ConfigService;
pub use group::{GroupService, Launch};
pub use hotkey::{HotkeyService, RecordRegistered};
