//! Applications, known by their bundle identifier.

use crate::os::interface::AppInterface;
use crate::text::{capitalize, capitalized, last_segment, segment_after_last};
use vstd::prelude::*;

verus! {

/// An application, known by its bundle identifier such as `com.apple.finder`.
/// Its view is that identifier.
#[derive(Debug, Hash)]
pub struct App {
    bundle_id: String,
}

impl View for App {
    type V = Seq<char>;

    closed spec fn view(&self) -> Seq<char> {
        self.bundle_id@
    }
}

/// The name shown for the application with this bundle identifier: the last
/// part of the identifier, with a capital.
pub open spec fn display_name(bundle_id: Seq<char>) -> Seq<char> {
    capitalized(last_segment(bundle_id, '.'))
}

impl AppInterface for App {
    open spec fn id_text(&self) -> Seq<char> {
        self@
    }

    open spec fn display_text(&self) -> Seq<char> {
        display_name(self@)
    }

    fn id(&self) -> (r: &str) {
        self.bundle_id.as_str()
    }

    fn new(bundle_id: &str) -> (r: App) {
        App { bundle_id: bundle_id.to_owned() }
    }

    fn display(&self) -> (r: String) {
        let name = segment_after_last(self.bundle_id.as_str(), '.');
        capitalize(name.as_str())
    }
}

impl App {
    /// The name under which the application is shown.
    pub fn to_string(&self) -> (r: String)
        ensures
            r@ == display_name(self@),
    {
        self.display()
    }
}

impl Clone for App {
    fn clone(&self) -> (r: App)
        ensures
            r == *self,
    {
        App { bundle_id: self.bundle_id.clone() }
    }
}

impl PartialEq for App {
    fn eq(&self, other: &App) -> (r: bool) {
        self.bundle_id == other.bundle_id
    }
}

impl Eq for App {

}

impl vstd::std_specs::cmp::PartialEqSpecImpl for App {
    open spec fn obeys_eq_spec() -> bool {
        true
    }

    open spec fn eq_spec(&self, other: &App) -> bool {
        self@ == other@
    }
}

} // verus!
