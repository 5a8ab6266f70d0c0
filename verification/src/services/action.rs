//! The dispatcher: it carries out the action of a hotkey that was pressed.

use crate::models::action::Action;
use crate::models::config::Config;
use crate::os::interface::OpenInterface;
use crate::os::macos::App;
use crate::services::group::{app_id_of, chosen, GroupService, Launch};
use vstd::prelude::*;

verus! {

/// Carries out actions.
#[derive(Debug)]
pub struct ActionService {
    group_service: GroupService,
}

impl Default for ActionService {
    fn default() -> (r: ActionService) {
        ActionService { group_service: GroupService::default() }
    }
}

impl ActionService {
    /// Carries out `action` on the configuration as it is now: the first
    /// application of the group is chosen, whichever application is in
    /// front, the launcher is asked to bring it forward, and its answer is
    /// handed back. Where the group is gone or empty, nothing happens. The
    /// configuration stays as it is, whatever the launcher answers.
    pub fn execute<L: OpenInterface>(
        &mut self,
        launcher: &L,
        config: &Config,
        action: &Action,
        frontmost: Option<&App>,
    ) -> (r: Option<Launch>)
        requires
            config.wf(),
        ensures
            match r {
                Some(launch) => chosen(config@, action->group_id, app_id_of(frontmost)) == Some(
                    launch.app@,
                ) && call_ensures(L::open, (launcher, &launch.app), launch.outcome),
                None => chosen(config@, action->group_id, app_id_of(frontmost)) is None,
            },
    {
        match action {
            Action::OpenGroup { group_id } => self.group_service.open(
                launcher,
                config,
                *group_id,
                frontmost,
            ),
        }
    }
}

} // verus!
