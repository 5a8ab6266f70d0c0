//! Opening a group: one of its applications is chosen and brought forward.

use crate::models::config::{found, Config};
use crate::models::group::{app_ids, GroupId, GroupView};
use crate::open::OpenAppError;
use crate::os::interface::OpenInterface;
use crate::os::macos::App;
use vstd::prelude::*;

verus! {

/// The identifier of this application, where there is one.
pub open spec fn app_id_of(app: Option<&App>) -> Option<Seq<char>> {
    match app {
        Some(app) => Some(app@),
        None => None,
    }
}

/// The application to bring forward when `frontmost` is in front: the first
/// of `apps`, whichever application is in front; none where there are none.
pub open spec fn next_app(apps: Seq<Seq<char>>, frontmost: Option<Seq<char>>) -> Option<
    Seq<char>,
> {
    if apps.len() == 0 {
        None
    } else {
        Some(apps[0])
    }
}

/// What opening a group chose when `frontmost` was in front: the first
/// application of the group with this identifier, where there is such a
/// group and it is not empty.
pub open spec fn chosen(
    groups: Seq<GroupView>,
    group_id: GroupId,
    frontmost: Option<Seq<char>>,
) -> Option<Seq<char>> {
    match found(groups, group_id) {
        Some(group) => next_app(group.apps, frontmost),
        None => None,
    }
}

/// A request to bring an application forward, and what the system answered.
#[derive(Debug)]
pub struct Launch {
    /// The application that was to come forward.
    pub app: App,
    /// What the launcher answered.
    pub outcome: Result<(), OpenAppError>,
}

/// Opens groups.
#[derive(Debug)]
pub struct GroupService {}

impl Default for GroupService {
    fn default() -> (r: GroupService) {
        GroupService {  }
    }
}

impl GroupService {
    /// The application, among `apps`, to bring forward when `frontmost` is
    /// in front: the first of them, whichever application is in front.
    pub fn select<'a>(&self, apps: &'a Vec<App>, frontmost: Option<&App>) -> (r: Option<&'a App>)
        ensures
            app_id_of(r) == next_app(app_ids(apps@), app_id_of(frontmost)),
    {
        if apps.len() == 0 {
            return None;
        }
        assert(app_ids(apps@)[0] == apps[0]@);
        Some(&apps[0])
    }

    /// Brings an application of the group with this identifier forward: the
    /// one that `select` chooses. Where there is no such group, or the group
    /// is empty, nothing is asked of the launcher. Else the launcher is asked
    /// to open the application chosen, and its answer is handed back.
    pub fn open<L: OpenInterface>(
        &self,
        launcher: &L,
        config: &Config,
        group_id: GroupId,
        frontmost: Option<&App>,
    ) -> (r: Option<Launch>)
        requires
            config.wf(),
        ensures
            match r {
                Some(launch) => chosen(config@, group_id, app_id_of(frontmost)) == Some(launch.app@)
                    && call_ensures(L::open, (launcher, &launch.app), launch.outcome),
                None => chosen(config@, group_id, app_id_of(frontmost)) is None,
            },
    {
        let group = match config.group(group_id) {
            Some(group) => group,
            None => {
                return None;
            },
        };
        match self.select(group.apps(), frontmost) {
            Some(app) => {
                let outcome = launcher.open(app);
                Some(Launch { app: app.clone(), outcome })
            },
            None => None,
        }
    }
}

} // verus!
