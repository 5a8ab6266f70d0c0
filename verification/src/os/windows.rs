//! Windows: Control comes first among the modifiers, the Windows key is
//! the primary modifier.

pub mod modifiers;
pub mod open;

pub use modifiers::ModifierFormat;
pub use open::Launcher;
