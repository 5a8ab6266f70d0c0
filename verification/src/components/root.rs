//! The main window: the list of groups on one side, the group that is
//! selected on the other.

use crate::components::list::CellChange;
use crate::models::config::{id_taken, new_group, without_group};
use crate::models::group::{GroupId, GroupView};
use crate::services::config::ConfigService;
use crate::services::hotkey::binder::HotkeyBinder;
use vstd::prelude::*;
use vstd::string::StringExecFns;

verus! {

/// The group that the window shows: the one selected, where exactly one is.
pub fn active_group(selected: &Vec<GroupId>) -> (r: Option<GroupId>)
    ensures
        r == if selected@.len() == 1 {
            Some(selected@[0])
        } else {
            None
        },
{
    if selected.len() == 1 {
        Some(selected[0])
    } else {
        None
    }
}

/// The groups without those of these identifiers.
pub open spec fn without_groups(groups: Seq<GroupView>, ids: Seq<GroupId>) -> Seq<GroupView>
    decreases ids.len(),
{
    if ids.len() == 0 {
        groups
    } else {
        without_groups(without_group(groups, ids.first()), ids.drop_first())
    }
}

/// Takes a change to the list of groups. To add is to put a group named
/// `New Group` at the end; its identifier is handed back, for the window to
/// select. To remove is to take out each of the groups named, its hotkey
/// given up first.
pub fn change_groups<B: HotkeyBinder>(
    config_service: &mut ConfigService<B>,
    change: CellChange<GroupId>,
) -> (r: Option<GroupId>)
    requires
        old(config_service).wf(),
    ensures
        final(config_service).wf(),
        old(config_service).in_sync() ==> final(config_service).in_sync(),
        match change {
            CellChange::Add => {
                &&& r matches Some(id)
                &&& !id_taken(old(config_service)@, id)
                &&& final(config_service)@ == old(config_service)@.push(
                    new_group(id, "New Group"@),
                )
                &&& final(config_service).binder_state() == old(config_service).binder_state()
                &&& !old(config_service).issued().contains(id)
                &&& final(config_service).issued() == old(config_service).issued().push(id)
            },
            CellChange::Remove(ids) => {
                &&& r is None
                &&& final(config_service)@ == without_groups(old(config_service)@, ids@)
                &&& final(config_service).issued() == old(config_service).issued()
            },
        },
{
    match change {
        CellChange::Add => {
            let id = config_service.add_group(String::from_str("New Group"));
            Some(id)
        },
        CellChange::Remove(ids) => {
            let mut i: usize = 0;
            assert(ids@.skip(0) =~= ids@);
            while i < ids.len()
                invariant
                    i <= ids.len(),
                    config_service.wf(),
                    old(config_service).in_sync() ==> config_service.in_sync(),
                    config_service.issued() == old(config_service).issued(),
                    without_groups(config_service@, ids@.skip(i as int)) == without_groups(
                        old(config_service)@,
                        ids@,
                    ),
                decreases ids.len() - i,
            {
                proof {
                    let rest = ids@.skip(i as int);
                    assert(rest.first() == ids@[i as int]);
                    assert(rest.drop_first() =~= ids@.skip(i + 1));
                }
                config_service.remove_group(ids[i]);
                i += 1;
            }
            assert(ids@.skip(ids@.len() as int) =~= Seq::empty());
            None
        },
    }
}

} // verus!
