//! The configuration data model.

pub mod action;
pub mod config;
pub mod group;
pub mod hotkey;

pub use action::{Action, Actionable};
pub use config::{Config, UnknownGroup};
pub use group::{Group, GroupId, GroupView};
pub use hotkey::{Hotkey, KeyCode, Modifiers};
