//! The interfaces that each platform fills in.

use crate::models::hotkey::Modifiers;
use crate::open::OpenAppError;
use crate::os::macos::App;
use vstd::prelude::*;

verus! {

/// A handle on an application that the system can launch.
pub trait AppInterface: Sized {
    /// The identifier by which the platform knows the application.
    spec fn id_text(&self) -> Seq<char>;

    /// The name under which the application is shown.
    spec fn display_text(&self) -> Seq<char>;

    /// The identifier by which the platform knows the application.
    fn id(&self) -> (r: &str)
        ensures
            r@ == self.id_text(),
    ;

    /// The handle on the application with this identifier.
    fn new(id: &str) -> (r: Self)
        ensures
            r.id_text() == id@,
    ;

    /// The name under which the application is shown.
    fn display(&self) -> (r: String)
        ensures
            r@ == self.display_text(),
    ;
}

/// The platform's launcher. Whether a launch succeeds is the system's to say.
pub trait OpenInterface {
    /// Asks the system to bring `app` forward.
    fn open(&self, app: &App) -> Result<(), OpenAppError>;
}

/// How a platform writes the modifier keys of a shortcut.
pub trait ModifierFormatInterface {
    /// The modifier bits in the order in which the platform writes them, each
    /// with its label.
    spec fn labels() -> Seq<(u32, Seq<char>)>;

    /// The modifiers in the order in which the platform writes them, each
    /// with its label.
    fn get() -> (r: [(Modifiers, &'static str); 4])
        ensures
            Self::labels().len() == 4,
            forall|i: int|
                0 <= i < 4 ==> (#[trigger] r@[i]).0@ == Self::labels()[i].0 && r@[i].1@
                    == Self::labels()[i].1,
    ;
}

/// How a platform's keyboard is read.
pub trait KeyboardBehavior {
    /// The modifier bits in the order in which the platform writes them, each
    /// with its label.
    spec fn labels() -> Seq<(u32, Seq<char>)>;

    /// The modifier bit that, held during a click, adds to a selection.
    spec fn multi_select_bit() -> u32;

    /// The modifiers in the order in which the platform writes them, each
    /// with its label.
    fn modifier_format() -> (r: [(Modifiers, &'static str); 4])
        ensures
            Self::labels().len() == 4,
            forall|i: int|
                0 <= i < 4 ==> (#[trigger] r@[i]).0@ == Self::labels()[i].0 && r@[i].1@
                    == Self::labels()[i].1,
    ;

    /// Whether a click with these modifiers held adds to the selection
    /// in place of replacing it.
    fn is_multi_select(modifiers: Modifiers) -> (r: bool)
        ensures
            r == crate::models::hotkey::holds_bits(modifiers@, Self::multi_select_bit()),
    ;
}

} // verus!
