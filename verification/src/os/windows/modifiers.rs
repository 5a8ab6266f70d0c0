//! How Windows writes modifier keys.

use crate::models::hotkey::{Modifiers, ALT_BIT, CONTROL_BIT, META_BIT, SHIFT_BIT};
use crate::os::interface::ModifierFormatInterface;
use vstd::prelude::*;

verus! {

/// The modifier labels of Windows: Control first, then the Windows key, Alt, Shift.
pub struct ModifierFormat;

impl ModifierFormatInterface for ModifierFormat {
    open spec fn labels() -> Seq<(u32, Seq<char>)> {
        seq![
            (CONTROL_BIT, "Ctrl+"@),
            (META_BIT, "Win+"@),
            (ALT_BIT, "Alt+"@),
            (SHIFT_BIT, "Shift+"@),
        ]
    }

    fn get() -> (r: [(Modifiers, &'static str); 4]) {
        [
            (Modifiers::control(), "Ctrl+"),
            (Modifiers::meta(), "Win+"),
            (Modifiers::alt(), "Alt+"),
            (Modifiers::shift(), "Shift+"),
        ]
    }
}

} // verus!
