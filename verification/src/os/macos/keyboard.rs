//! The macOS keyboard.

use crate::models::hotkey::{Modifiers, META_BIT};
use crate::os::interface::{KeyboardBehavior, ModifierFormatInterface};
use crate::os::macos::modifiers::ModifierFormat;
use vstd::prelude::*;

verus! {

/// The macOS keyboard: Command adds to a selection.
pub struct Keyboard;

impl KeyboardBehavior for Keyboard {
    open spec fn labels() -> Seq<(u32, Seq<char>)> {
        ModifierFormat::labels()
    }

    open spec fn multi_select_bit() -> u32 {
        META_BIT
    }

    fn modifier_format() -> (r: [(Modifiers, &'static str); 4]) {
        ModifierFormat::get()
    }

    fn is_multi_select(modifiers: Modifiers) -> (r: bool) {
        modifiers.has_meta()
    }
}

} // verus!
