//! How macOS writes modifier keys.

use crate::models::hotkey::{Modifiers, ALT_BIT, CONTROL_BIT, META_BIT, SHIFT_BIT};
use crate::os::interface::ModifierFormatInterface;
use vstd::prelude::*;

verus! {

/// The modifier labels of macOS: Command first, then Option, Control, Shift.
pub struct ModifierFormat;

impl ModifierFormatInterface for ModifierFormat {
    open spec fn labels() -> Seq<(u32, Seq<char>)> {
        seq![
            (META_BIT, "Cmd+"@),
            (ALT_BIT, "Opt+"@),
            (CONTROL_BIT, "Ctrl+"@),
            (SHIFT_BIT, "Shift+"@),
        ]
    }

    fn get() -> (r: [(Modifiers, &'static str); 4]) {
        [
            (Modifiers::meta(), "Cmd+"),
            (Modifiers::alt(), "Opt+"),
            (Modifiers::control(), "Ctrl+"),
            (Modifiers::shift(), "Shift+"),
        ]
    }
}

} // verus!
