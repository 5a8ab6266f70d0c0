//! The hotkey service: it compares the hotkey that a group should have with
//! the one that it has, looks for another group in the way, and asks the
//! binder for what is needed.

use crate::models::action::{action_of, Action, Actionable};
use crate::models::config::Config;
use crate::models::group::{hotkey_id_of, GroupView};
use crate::models::hotkey::Hotkey;
use crate::services::hotkey::binder::{BinderError, HotkeyBinder};
use crate::services::hotkey::registry::{one_to_one, paired, Registry};
use vstd::prelude::*;

verus! {

/// Whether `group` stands in the way of giving the hotkey `desired` to the
/// group that `action` belongs to: it holds that hotkey and is another group.
pub open spec fn conflicts(group: GroupView, desired: Option<u32>, action: Action) -> bool {
    desired is Some && group.hotkey == desired && action_of(group) != action
}

/// The action of the first group that stands in the way, where one does.
pub open spec fn conflict(groups: Seq<GroupView>, desired: Option<u32>, action: Action) -> Option<
    Action,
>
    decreases groups.len(),
{
    if groups.len() == 0 {
        None
    } else if conflicts(groups.first(), desired, action) {
        Some(action_of(groups.first()))
    } else {
        conflict(groups.drop_first(), desired, action)
    }
}

/// What a request to change a hotkey comes to.
pub enum Reconciliation {
    /// The hotkey wanted is the one held: nothing is to be done.
    Unchanged,
    /// Another group holds the hotkey wanted: nothing is done, and that
    /// group's action is reported.
    Conflict(Action),
    /// The binder is asked to give up the hotkey held, where one is held,
    /// and then to register the hotkey wanted, where one is wanted.
    Rebind,
}

/// What comes of the request to give the group that `action` belongs to the
/// hotkey `desired` in place of `current`, the groups being `groups`.
pub open spec fn reconcile(
    groups: Seq<GroupView>,
    desired: Option<u32>,
    current: Option<u32>,
    action: Action,
) -> Reconciliation {
    if desired == current {
        Reconciliation::Unchanged
    } else {
        match conflict(groups, desired, action) {
            Some(other) => Reconciliation::Conflict(other),
            None => Reconciliation::Rebind,
        }
    }
}

/// What the service hands back for the binder's answer to a request to
/// register: nothing to report where it registered, its refusal else.
pub open spec fn answer(outcome: Result<(), BinderError>) -> Result<Option<Action>, BinderError> {
    match outcome {
        Ok(()) => Ok(None),
        Err(error) => Err(error),
    }
}

/// The registry after a change of hotkey: the old hotkey is forgotten, and
/// the new one is noted where the binder registered it.
pub open spec fn rebound(
    registered: Map<u32, u128>,
    desired: Option<u32>,
    current: Option<u32>,
    action: Action,
    bound: bool,
) -> Map<u32, u128> {
    let released = match current {
        Some(hotkey) => registered.remove(hotkey),
        None => registered,
    };
    match desired {
        Some(hotkey) => if bound {
            paired(released, hotkey, action->group_id.0)
        } else {
            released
        },
        None => released,
    }
}

/// No group stands in the way exactly when none of the groups does.
pub proof fn lemma_no_conflict(groups: Seq<GroupView>, desired: Option<u32>, action: Action)
    ensures
        conflict(groups, desired, action) is None <==> forall|i: int|
            0 <= i < groups.len() ==> !conflicts(#[trigger] groups[i], desired, action),
    decreases groups.len(),
{
    if groups.len() > 0 {
        let rest = groups.drop_first();
        lemma_no_conflict(rest, desired, action);
        assert(forall|i: int| 0 <= i < rest.len() ==> rest[i] == groups[i + 1]);
        if conflict(groups, desired, action) is None {
            assert forall|i: int| 0 <= i < groups.len() implies !conflicts(
                #[trigger] groups[i],
                desired,
                action,
            ) by {
                if i > 0 {
                    assert(rest[i - 1] == groups[i]);
                }
            }
        }
    }
}

/// The group reported as standing in the way is the first that does.
pub proof fn lemma_first_conflict(
    groups: Seq<GroupView>,
    desired: Option<u32>,
    action: Action,
    at: int,
)
    requires
        0 <= at < groups.len(),
        conflicts(groups[at], desired, action),
        forall|i: int| 0 <= i < at ==> !conflicts(#[trigger] groups[i], desired, action),
    ensures
        conflict(groups, desired, action) == Some(action_of(groups[at])),
    decreases at,
{
    if at > 0 {
        let rest = groups.drop_first();
        assert(forall|i: int| 0 <= i < rest.len() ==> rest[i] == groups[i + 1]);
        assert forall|i: int| 0 <= i < at - 1 implies !conflicts(
            #[trigger] rest[i],
            desired,
            action,
        ) by {
            assert(rest[i] == groups[i + 1]);
        }
        lemma_first_conflict(rest, desired, action, at - 1);
    }
}

/// Whether two hotkeys, or their absence, are the same.
pub fn same_hotkey(a: Option<Hotkey>, b: Option<Hotkey>) -> (r: bool)
    ensures
        r == (hotkey_id_of(a) == hotkey_id_of(b)),
{
    match (a, b) {
        (Some(x), Some(y)) => x.id() == y.id(),
        (None, None) => true,
        _ => false,
    }
}

/// The service that keeps the binder in step with the configuration. It
/// keeps a registry of the hotkeys that the binder registered for it and did
/// not give up since.
pub struct HotkeyService<B: HotkeyBinder> {
    binder: B,
    registry: Registry,
}

impl<B: HotkeyBinder> HotkeyService<B> {
    /// The hotkeys that the binder holds for this service, by id, each with
    /// the number of the group that it opens.
    pub closed spec fn registered(&self) -> Map<u32, u128> {
        self.registry@
    }

    /// The binder as it stands.
    pub closed spec fn binder_state(&self) -> B {
        self.binder
    }

    /// No group has two hotkeys registered.
    pub open spec fn wf(&self) -> bool {
        one_to_one(self.registered())
    }

    /// A service on this binder, with nothing registered.
    pub fn new_with_binder(binder: B) -> (r: HotkeyService<B>)
        ensures
            r.wf(),
            r.registered() == (Map::<u32, u128>::empty()),
            r.binder_state() == binder,
    {
        HotkeyService { binder, registry: Registry::new() }
    }

    /// The binder of the service.
    pub fn binder(&self) -> (r: &B)
        ensures
            *r == self.binder_state(),
    {
        &self.binder
    }

    /// The ids of the hotkeys that the binder holds for this service, each
    /// once, in no particular order.
    pub fn hotkeys(&self) -> (r: Vec<u32>)
        ensures
            r@.no_duplicates(),
            r@.to_set() == self.registered().dom(),
    {
        self.registry.hotkeys()
    }

    /// Whether the binder holds this hotkey for this service.
    pub fn is_registered(&self, hotkey: Hotkey) -> (r: bool)
        ensures
            r == self.registered().dom().contains(hotkey@),
    {
        self.registry.group_of(hotkey.id()).is_some()
    }

    /// The action of the first group that stands in the way of giving
    /// `hotkey` to the group that `action` belongs to, where one does.
    pub fn find_conflict(config: &Config, hotkey: Option<Hotkey>, action: Action) -> (r: Option<
        Action,
    >)
        ensures
            r == conflict(config@, hotkey_id_of(hotkey), action),
    {
        let wanted = match hotkey {
            Some(wanted) => wanted,
            None => {
                proof {
                    lemma_no_conflict(config@, hotkey_id_of(hotkey), action);
                }
                return None;
            },
        };
        let groups = config.groups();
        let mut i: usize = 0;
        while i < groups.len()
            invariant
                i <= groups.len(),
                crate::models::config::group_views(groups@) == config@,
                hotkey == Some(wanted),
                forall|j: int|
                    0 <= j < i ==> !conflicts(#[trigger] config@[j], hotkey_id_of(hotkey), action),
            decreases groups.len() - i,
        {
            let group = &groups[i];
            assert(group@ == config@[i as int]);
            if same_hotkey(group.hotkey(), hotkey) && group.action() != action {
                proof {
                    lemma_first_conflict(config@, hotkey_id_of(hotkey), action, i as int);
                }
                return Some(group.action());
            }
            i += 1;
        }
        proof {
            lemma_no_conflict(config@, hotkey_id_of(hotkey), action);
        }
        None
    }

    /// Notes what the binder answered to the request to register `hotkey`
    /// for `action`: the hotkey enters the registry where the binder took it,
    /// and the binder's refusal is handed on where it did not.
    pub fn note_bind(
        &mut self,
        hotkey: Hotkey,
        action: Action,
        outcome: Result<(), BinderError>,
    ) -> (r: Result<Option<Action>, BinderError>)
        requires
            old(self).wf(),
        ensures
            final(self).wf(),
            final(self).binder_state() == old(self).binder_state(),
            r == answer(outcome),
            final(self).registered() == match outcome {
                Ok(()) => paired(old(self).registered(), hotkey@, action->group_id.0),
                Err(error) => old(self).registered(),
            },
    {
        match outcome {
            Ok(()) => {
                self.registry.insert(hotkey.id(), action.group_id().as_u128());
                Ok(None)
            },
            Err(error) => Err(error),
        }
    }

    /// Gives the group that `action` belongs to the hotkey `hotkey` in place
    /// of `existing_hotkey`. Where the two are the same, nothing is done.
    /// Where another group of `config` holds `hotkey`, nothing is done and
    /// that group's action is handed back. Else the binder is asked to give
    /// up the existing hotkey and then to register the new one, and is asked
    /// nothing else; if it refuses, the old one stays given up and the
    /// refusal is handed back.
    pub fn bind_hotkey(
        &mut self,
        config: &Config,
        hotkey: Option<Hotkey>,
        existing_hotkey: Option<Hotkey>,
        action: Action,
    ) -> (r: Result<Option<Action>, BinderError>)
        requires
            old(self).wf(),
        ensures
            final(self).wf(),
            match reconcile(
                config@,
                hotkey_id_of(hotkey),
                hotkey_id_of(existing_hotkey),
                action,
            ) {
                Reconciliation::Unchanged => {
                    &&& r == Ok::<Option<Action>, BinderError>(None)
                    &&& final(self).binder_state() == old(self).binder_state()
                    &&& final(self).registered() == old(self).registered()
                },
                Reconciliation::Conflict(other) => {
                    &&& r == Ok::<Option<Action>, BinderError>(Some(other))
                    &&& final(self).binder_state() == old(self).binder_state()
                    &&& final(self).registered() == old(self).registered()
                },
                Reconciliation::Rebind => {
                    &&& final(self).registered() == rebound(
                        old(self).registered(),
                        hotkey_id_of(hotkey),
                        hotkey_id_of(existing_hotkey),
                        action,
                        r is Ok,
                    )
                    &&& match (existing_hotkey, hotkey) {
                        (Some(current), Some(wanted)) => exists|
                            release: &mut B,
                            register: &mut B,
                            outcome: Result<(), BinderError>,
                        |
                            {
                                &&& *release == old(self).binder_state()
                                &&& #[trigger] call_ensures(
                                    B::unbind_hotkey,
                                    (release, current),
                                    (),
                                )
                                &&& *final(release) == *register
                                &&& #[trigger] call_ensures(
                                    B::bind_hotkey,
                                    (register, wanted, &action),
                                    outcome,
                                )
                                &&& *final(register) == final(self).binder_state()
                                &&& r == answer(outcome)
                            },
                        (None, Some(wanted)) => exists|
                            register: &mut B,
                            outcome: Result<(), BinderError>,
                        |
                            {
                                &&& *register == old(self).binder_state()
                                &&& #[trigger] call_ensures(
                                    B::bind_hotkey,
                                    (register, wanted, &action),
                                    outcome,
                                )
                                &&& *final(register) == final(self).binder_state()
                                &&& r == answer(outcome)
                            },
                        (Some(current), None) => exists|release: &mut B|
                            {
                                &&& *release == old(self).binder_state()
                                &&& #[trigger] call_ensures(
                                    B::unbind_hotkey,
                                    (release, current),
                                    (),
                                )
                                &&& *final(release) == final(self).binder_state()
                                &&& r == Ok::<Option<Action>, BinderError>(None)
                            },
                        (None, None) => true,
                    }
                },
            },
    {
        if same_hotkey(hotkey, existing_hotkey) {
            return Ok(None);
        }
        if let Some(other) = Self::find_conflict(config, hotkey, action) {
            return Ok(Some(other));
        }
        if let Some(current) = existing_hotkey {
            self.binder.unbind_hotkey(current);
            self.registry.remove(current.id());
        }
        match hotkey {
            Some(wanted) => {
                let outcome = self.binder.bind_hotkey(wanted, &action);
                self.note_bind(wanted, action, outcome)
            },
            None => Ok(None),
        }
    }
}

/// Asking for the hotkey that is held already is asking for nothing: no call
/// is made, nothing is reported.
pub proof fn lemma_equal_rebind_is_noop(groups: Seq<GroupView>, hotkey: Option<u32>, action: Action)
    ensures
        reconcile(groups, hotkey, hotkey, action) == Reconciliation::Unchanged,
{
}

/// Where the configuration holds no other group, nothing stands in the way
/// of changing one hotkey into another: the old hotkey is given up, then
/// the new one is registered.
pub proof fn lemma_change_unbinds_then_binds(
    groups: Seq<GroupView>,
    old_hotkey: u32,
    new_hotkey: u32,
    action: Action,
)
    requires
        old_hotkey != new_hotkey,
        forall|i: int| 0 <= i < groups.len() ==> action_of(#[trigger] groups[i]) == action,
    ensures
        reconcile(groups, Some(new_hotkey), Some(old_hotkey), action) == Reconciliation::Rebind,
{
    lemma_no_conflict(groups, Some(new_hotkey), action);
}

/// Giving a hotkey up is never refused: whatever the groups hold, the
/// hotkey held is given up.
pub proof fn lemma_release_never_conflicts(
    groups: Seq<GroupView>,
    current: Option<u32>,
    action: Action,
)
    ensures
        reconcile(groups, None, current, action) == match current {
            Some(hotkey) => Reconciliation::Rebind,
            None => Reconciliation::Unchanged,
        },
{
    lemma_no_conflict(groups, None, action);
}

/// Once a group is taken out, the hotkey that it held stands in the way of
/// no request.
pub proof fn lemma_removed_group_frees_hotkey(groups: Seq<GroupView>, at: int, action: Action)
    requires
        crate::models::config::ids_unique(groups),
        crate::models::config::hotkeys_unique(groups),
        0 <= at < groups.len(),
    ensures
        conflict(
            crate::models::config::without_group(groups, groups[at].id),
            groups[at].hotkey,
            action,
        ) is None,
{
    let rest = groups.remove(at);
    crate::models::config::lemma_without_group_at(groups, at);
    lemma_no_conflict(rest, groups[at].hotkey, action);
    assert forall|i: int| 0 <= i < rest.len() implies !conflicts(
        #[trigger] rest[i],
        groups[at].hotkey,
        action,
    ) by {
        let from = if i < at {
            i
        } else {
            i + 1
        };
        assert(rest[i] == groups[from]);
    }
}

/// Where a group holds a hotkey, asking for that hotkey for another group
/// that has none reports the first group's action and makes no call.
pub proof fn lemma_held_hotkey_conflicts(
    groups: Seq<GroupView>,
    holder: int,
    asker: int,
    hotkey: u32,
)
    requires
        crate::models::config::ids_unique(groups),
        crate::models::config::hotkeys_unique(groups),
        0 <= holder < groups.len(),
        0 <= asker < groups.len(),
        holder != asker,
        groups[holder].hotkey == Some(hotkey),
    ensures
        reconcile(groups, Some(hotkey), None, action_of(groups[asker])) == Reconciliation::Conflict(
            action_of(groups[holder]),
        ),
{
    let action = action_of(groups[asker]);
    assert forall|i: int| 0 <= i < holder implies !conflicts(
        #[trigger] groups[i],
        Some(hotkey),
        action,
    ) by {
        if groups[i].hotkey == Some(hotkey) {
            assert(groups[i].hotkey == groups[holder].hotkey);
        }
    }
    lemma_first_conflict(groups, Some(hotkey), action, holder);
}

} // verus!
