//! Actions: what a hotkey sets off.

use crate::models::group::{uuid_text, Group, GroupId, GroupView};
use vstd::prelude::*;
use vstd::string::StringExecFns;

verus! {

/// What a hotkey sets off when it is pressed.
#[derive(Clone, Copy, Debug, PartialEq, Eq, Hash, Structural)]
pub enum Action {
    /// Bring an application of this group forward.
    OpenGroup { group_id: GroupId },
}

/// The action that belongs to a group: to open it. It follows from the
/// group's identifier alone.
pub open spec fn action_of(group: GroupView) -> Action {
    Action::OpenGroup { group_id: group.id }
}

impl Action {
    /// The group that the action is about.
    pub fn group_id(&self) -> (r: GroupId)
        ensures
            *self == (Action::OpenGroup { group_id: r }),
    {
        match self {
            Action::OpenGroup { group_id } => *group_id,
        }
    }

    /// The action in words.
    pub fn to_string(&self) -> (r: String)
        ensures
            r@ == "Open group "@ + uuid_text(self->group_id.0),
    {
        match self {
            Action::OpenGroup { group_id } => {
                let mut out = String::from_str("Open group ");
                let id = group_id.to_string();
                out.append(id.as_str());
                out
            },
        }
    }
}

/// Something that an action belongs to.
pub trait Actionable {
    /// The action that belongs to this.
    spec fn action_spec(&self) -> Action;

    /// The action that belongs to this.
    fn action(&self) -> (r: Action)
        ensures
            r == self.action_spec(),
    ;
}

impl Actionable for Group {
    open spec fn action_spec(&self) -> Action {
        action_of(self@)
    }

    fn action(&self) -> (r: Action) {
        Action::OpenGroup { group_id: self.id() }
    }
}

} // verus!
