//! macOS: applications are known by bundle identifier, Command is the
//! primary modifier.

pub mod app;
pub mod keyboard;
pub mod modifiers;

pub use app::App;
pub use keyboard::Keyboard;
pub use modifiers::ModifierFormat;
