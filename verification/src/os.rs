//! What differs from one platform to the next: how an application is named,
//! how modifier keys are written, how an application is brought forward.

pub mod interface;
pub mod macos;
pub mod windows;

pub use interface::{AppInterface, KeyboardBehavior, ModifierFormatInterface, OpenInterface};
pub use macos::{App, Keyboard};
