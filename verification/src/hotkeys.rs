//! Picking a hotkey: the recorder behind the button that shows a group's
//! hotkey and records a new one.

pub mod picker;

pub use picker::{HotkeyPicker, Message};
