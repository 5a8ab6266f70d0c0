//! The pane of one group: its name, its hotkey, its applications.

use crate::components::list::CellChange;
use crate::models::config::{with_app_in, without_app_in};
use crate::models::group::{GroupId, GroupView};
use crate::os::macos::App;
use crate::services::config::ConfigService;
use crate::services::hotkey::binder::HotkeyBinder;
use vstd::prelude::*;

verus! {

/// The groups, the one of this identifier without the applications of
/// these identifiers.
pub open spec fn without_apps_in(groups: Seq<GroupView>, id: GroupId, apps: Seq<String>) -> Seq<
    GroupView,
>
    decreases apps.len(),
{
    if apps.len() == 0 {
        groups
    } else {
        without_apps_in(without_app_in(groups, id, apps.first()@), id, apps.drop_first())
    }
}

/// Takes a change to the list of the applications of the group with this
/// identifier. To add is to put `picked`, the application that the user
/// chose, at the end, unless it is already in the group; nothing happens
/// where the user chose none. To remove is to take out each of the
/// applications named.
pub fn change_apps<B: HotkeyBinder>(
    config_service: &mut ConfigService<B>,
    group_id: GroupId,
    change: CellChange<String>,
    picked: Option<App>,
)
    requires
        old(config_service).wf(),
    ensures
        final(config_service).wf(),
        old(config_service).in_sync() ==> final(config_service).in_sync(),
        final(config_service).binder_state() == old(config_service).binder_state(),
        final(config_service).registered() == old(config_service).registered(),
        final(config_service).issued() == old(config_service).issued(),
        final(config_service)@ == match change {
            CellChange::Add => match picked {
                Some(app) => with_app_in(old(config_service)@, group_id, app@),
                None => old(config_service)@,
            },
            CellChange::Remove(apps) => without_apps_in(old(config_service)@, group_id, apps@),
        },
{
    match change {
        CellChange::Add => {
            match picked {
                Some(app) => {
                    config_service.add_app(group_id, app);
                },
                None => {},
            }
        },
        CellChange::Remove(apps) => {
            let mut i: usize = 0;
            assert(apps@.skip(0) =~= apps@);
            while i < apps.len()
                invariant
                    i <= apps.len(),
                    config_service.wf(),
                    old(config_service).in_sync() ==> config_service.in_sync(),
                    config_service.binder_state() == old(config_service).binder_state(),
                    config_service.registered() == old(config_service).registered(),
                    config_service.issued() == old(config_service).issued(),
                    without_apps_in(config_service@, group_id, apps@.skip(i as int))
                        == without_apps_in(old(config_service)@, group_id, apps@),
                decreases apps.len() - i,
            {
                proof {
                    let rest = apps@.skip(i as int);
                    assert(rest.first() == apps@[i as int]);
                    assert(rest.drop_first() =~= apps@.skip(i + 1));
                }
                config_service.remove_app(group_id, apps[i].clone());
                i += 1;
            }
            assert(apps@.skip(apps@.len() as int) =~= Seq::empty());
        },
    }
}

} // verus!
