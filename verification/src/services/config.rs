//! The configuration service: every edit of the configuration goes through
//! it, and it alone changes hotkeys, so that no two groups hold the same one
//! and the registry follows the configuration.

use crate::models::action::{action_of, Action};
use crate::models::config::{
    apps_unique, found, group_at, group_views, hotkey_ids, hotkeys_unique, id_taken,
    ids_issued, ids_unique, is_other, lemma_found_at, lemma_without_group_at, new_group, renamed, with_app_in,
    with_hotkey, without_app_in, without_group, Config, UnknownGroup,
};
use crate::models::group::{hotkey_id_of, Group, GroupId, GroupView};
use crate::models::hotkey::Hotkey;
use crate::os::interface::AppInterface;
use crate::os::macos::App;
use crate::sequences::lemma_filter_keeps_all;
use crate::services::hotkey::binder::{BinderError, HotkeyBinder};
use crate::services::hotkey::registry::one_to_one;
use crate::services::hotkey::service::{
    answer, conflicts, lemma_no_conflict, rebound, reconcile, HotkeyService, Reconciliation,
};
use vstd::prelude::*;

verus! {

/// The place of the group that holds the hotkey with this id.
pub open spec fn holder(groups: Seq<GroupView>, hotkey: u32) -> int {
    choose|i: int| 0 <= i < groups.len() && groups[i].hotkey == Some(hotkey)
}

/// What the configuration asks to be registered: the id of each hotkey that
/// a group holds, with the number of that group.
pub open spec fn bindings(groups: Seq<GroupView>) -> Map<u32, u128> {
    Map::new(
        |hotkey: u32| hotkey_ids(groups).contains(hotkey),
        |hotkey: u32| groups[holder(groups, hotkey)].id.0,
    )
}

/// Whether everything in `part` is in `whole`, with the same value.
pub open spec fn part_of(part: Map<u32, u128>, whole: Map<u32, u128>) -> bool {
    forall|key: u32|
        #![trigger part.dom().contains(key)]
        part.dom().contains(key) ==> whole.dom().contains(key) && part[key] == whole[key]
}

/// Whether two sequences of groups have the same identifiers and hotkeys,
/// place by place.
pub open spec fn same_hotkeys(a: Seq<GroupView>, b: Seq<GroupView>) -> bool {
    &&& a.len() == b.len()
    &&& forall|i: int|
        0 <= i < a.len() ==> (#[trigger] a[i]).id == b[i].id && a[i].hotkey == b[i].hotkey
}

/// Among groups that hold distinct hotkeys, the holder of a hotkey is the
/// group at the place where the hotkey stands.
pub proof fn lemma_holder_at(groups: Seq<GroupView>, at: int, hotkey: u32)
    requires
        hotkeys_unique(groups),
        0 <= at < groups.len(),
        groups[at].hotkey == Some(hotkey),
    ensures
        hotkey_ids(groups).contains(hotkey),
        holder(groups, hotkey) == at,
        bindings(groups).dom().contains(hotkey),
        bindings(groups)[hotkey] == groups[at].id.0,
{
    let chosen = holder(groups, hotkey);
    if chosen != at {
        assert(groups[chosen].hotkey == groups[at].hotkey);
    }
}

/// Groups with the same identifiers and hotkeys ask for the same bindings.
pub proof fn lemma_same_hotkeys(a: Seq<GroupView>, b: Seq<GroupView>)
    requires
        hotkeys_unique(a),
        same_hotkeys(a, b),
    ensures
        hotkeys_unique(b),
        bindings(a) == bindings(b),
{
    assert forall|i: int, j: int|
        0 <= i < b.len() && 0 <= j < b.len() && i != j && b[i].hotkey
            == b[j].hotkey implies b[i].hotkey is None by {
        assert(a[i].hotkey == b[i].hotkey && a[j].hotkey == b[j].hotkey);
    }
    assert forall|hotkey: u32| hotkey_ids(a).contains(hotkey) implies hotkey_ids(b).contains(
        hotkey,
    ) && bindings(a)[hotkey] == bindings(b)[hotkey] by {
        let i = holder(a, hotkey);
        assert(b[i].hotkey == Some(hotkey));
        lemma_holder_at(a, i, hotkey);
        lemma_holder_at(b, i, hotkey);
    }
    assert forall|hotkey: u32| hotkey_ids(b).contains(hotkey) implies hotkey_ids(a).contains(
        hotkey,
    ) by {
        let i = holder(b, hotkey);
        assert(a[i].hotkey == Some(hotkey));
    }
    assert(bindings(a) =~= bindings(b));
}

/// A new group, which holds no hotkey, asks for no binding.
pub proof fn lemma_bindings_push(groups: Seq<GroupView>, group: GroupView)
    requires
        hotkeys_unique(groups),
        group.hotkey is None,
    ensures
        hotkeys_unique(groups.push(group)),
        bindings(groups.push(group)) == bindings(groups),
{
    let more = groups.push(group);
    assert forall|i: int, j: int|
        0 <= i < more.len() && 0 <= j < more.len() && i != j && more[i].hotkey
            == more[j].hotkey implies more[i].hotkey is None by {
        if i < groups.len() && j < groups.len() {
            assert(more[i] == groups[i] && more[j] == groups[j]);
        }
    }
    assert forall|hotkey: u32| hotkey_ids(groups).contains(hotkey) implies hotkey_ids(
        more,
    ).contains(hotkey) && bindings(groups)[hotkey] == bindings(more)[hotkey] by {
        let i = holder(groups, hotkey);
        assert(more[i] == groups[i]);
        lemma_holder_at(groups, i, hotkey);
        lemma_holder_at(more, i, hotkey);
    }
    assert forall|hotkey: u32| hotkey_ids(more).contains(hotkey) implies hotkey_ids(
        groups,
    ).contains(hotkey) by {
        let i = holder(more, hotkey);
        assert(i < groups.len());
        assert(more[i] == groups[i]);
    }
    assert(bindings(more) =~= bindings(groups));
}

/// Without a group, the configuration asks for what it asked before but for
/// that group's hotkey.
pub proof fn lemma_bindings_remove(groups: Seq<GroupView>, at: int)
    requires
        hotkeys_unique(groups),
        0 <= at < groups.len(),
    ensures
        hotkeys_unique(groups.remove(at)),
        bindings(groups.remove(at)) == rebound(
            bindings(groups),
            None,
            groups[at].hotkey,
            action_of(groups[at]),
            true,
        ),
{
    let rest = groups.remove(at);
    let target = rebound(bindings(groups), None, groups[at].hotkey, action_of(groups[at]), true);
    assert forall|i: int| 0 <= i < rest.len() implies #[trigger] rest[i] == groups[if i < at {
        i
    } else {
        i + 1
    }] by {}
    assert forall|i: int, j: int|
        0 <= i < rest.len() && 0 <= j < rest.len() && i != j && rest[i].hotkey
            == rest[j].hotkey implies rest[i].hotkey is None by {
        let oi = if i < at { i } else { i + 1 };
        let oj = if j < at { j } else { j + 1 };
        assert(rest[i] == groups[oi] && rest[j] == groups[oj]);
    }
    let now = bindings(rest);
    assert forall|hotkey: u32|
        #![trigger target.dom().contains(hotkey)]
        target.dom().contains(hotkey) implies now.dom().contains(hotkey) && now[hotkey]
        == target[hotkey] by {
        let i = holder(groups, hotkey);
        lemma_holder_at(groups, i, hotkey);
        assert(i != at);
        let ri = if i < at { i } else { i - 1 };
        assert(rest[ri] == groups[i]);
        lemma_holder_at(rest, ri, hotkey);
    }
    assert forall|hotkey: u32|
        #![trigger now.dom().contains(hotkey)]
        now.dom().contains(hotkey) implies target.dom().contains(hotkey) by {
        let ri = holder(rest, hotkey);
        let i = if ri < at { ri } else { ri + 1 };
        assert(rest[ri] == groups[i]);
        lemma_holder_at(groups, i, hotkey);
        if groups[at].hotkey == Some(hotkey) {
            assert(groups[i].hotkey == groups[at].hotkey);
        }
    }
    assert(now.dom() =~= target.dom());
    assert(now =~= target);
}

/// Once a group has changed its hotkey for one that no other group holds,
/// no two groups hold the same hotkey, and the configuration asks for what
/// it asked before with that one binding changed.
pub proof fn lemma_bindings_set(groups: Seq<GroupView>, at: int, desired: Option<u32>)
    requires
        ids_unique(groups),
        hotkeys_unique(groups),
        0 <= at < groups.len(),
        forall|i: int|
            0 <= i < groups.len() ==> !conflicts(
                #[trigger] groups[i],
                desired,
                action_of(groups[at]),
            ),
    ensures
        hotkeys_unique(with_hotkey(groups, groups[at].id, desired)),
        bindings(with_hotkey(groups, groups[at].id, desired)) == rebound(
            bindings(groups),
            desired,
            groups[at].hotkey,
            action_of(groups[at]),
            true,
        ),
{
    let id = groups[at].id;
    let after = with_hotkey(groups, id, desired);
    let target = rebound(bindings(groups), desired, groups[at].hotkey, action_of(groups[at]), true);
    assert forall|i: int| 0 <= i < groups.len() && i != at implies #[trigger] after[i]
        == groups[i] && groups[i].hotkey != desired || (desired is None && after[i]
        == groups[i]) by {
        assert(groups[i].id != id);
        assert(!conflicts(groups[i], desired, action_of(groups[at])));
    }
    assert(after[at].hotkey == desired && after[at].id == id);
    assert forall|i: int, j: int|
        0 <= i < after.len() && 0 <= j < after.len() && i != j && after[i].hotkey
            == after[j].hotkey implies after[i].hotkey is None by {
        if i != at && j != at {
            assert(after[i] == groups[i] && after[j] == groups[j]);
        } else if i == at {
            assert(after[j] == groups[j]);
            assert(!conflicts(groups[j], desired, action_of(groups[at])));
        } else {
            assert(after[i] == groups[i]);
            assert(!conflicts(groups[i], desired, action_of(groups[at])));
        }
    }
    let now = bindings(after);
    assert forall|hotkey: u32|
        #![trigger target.dom().contains(hotkey)]
        target.dom().contains(hotkey) implies now.dom().contains(hotkey) && now[hotkey]
        == target[hotkey] by {
        if desired == Some(hotkey) {
            lemma_holder_at(after, at, hotkey);
        } else {
            let i = holder(groups, hotkey);
            lemma_holder_at(groups, i, hotkey);
            assert(i != at);
            assert(after[i] == groups[i]);
            lemma_holder_at(after, i, hotkey);
        }
    }
    assert forall|hotkey: u32|
        #![trigger now.dom().contains(hotkey)]
        now.dom().contains(hotkey) implies target.dom().contains(hotkey) by {
        let i = holder(after, hotkey);
        if i != at {
            assert(after[i] == groups[i]);
            lemma_holder_at(groups, i, hotkey);
            assert(groups[i].id != id);
            if groups[at].hotkey == Some(hotkey) {
                assert(groups[i].hotkey == groups[at].hotkey);
            }
        }
    }
    assert(now.dom() =~= target.dom());
    assert(now =~= target);
}

/// A change of hotkey keeps a part of the bindings a part of them.
pub proof fn lemma_rebound_part(
    part: Map<u32, u128>,
    whole: Map<u32, u128>,
    desired: Option<u32>,
    current: Option<u32>,
    action: Action,
)
    requires
        part_of(part, whole),
    ensures
        part_of(
            rebound(part, desired, current, action, true),
            rebound(whole, desired, current, action, true),
        ),
        part_of(rebound(part, desired, current, action, false), whole),
{
    let a = rebound(part, desired, current, action, true);
    let b = rebound(whole, desired, current, action, true);
    assert forall|key: u32|
        #![trigger a.dom().contains(key)]
        a.dom().contains(key) implies b.dom().contains(key) && a[key] == b[key] by {
        if desired != Some(key) {
            assert(part.dom().contains(key));
            assert(part[key] == whole[key]);
        }
    }
    assert(part_of(a, b));
    let c = rebound(part, desired, current, action, false);
    assert forall|key: u32|
        #![trigger c.dom().contains(key)]
        c.dom().contains(key) implies whole.dom().contains(key) && c[key] == whole[key] by {
        assert(part.dom().contains(key));
        assert(part[key] == whole[key]);
    }
    assert(part_of(c, whole));
}

/// What the configuration asks to be registered are the hotkeys that its
/// groups hold.
pub proof fn lemma_bindings_are_held_hotkeys(groups: Seq<GroupView>)
    ensures
        bindings(groups).dom() == hotkey_ids(groups),
{
    assert(bindings(groups).dom() =~= hotkey_ids(groups));
}

/// The service through which the configuration is edited. Its view is the
/// sequence of the groups as values.
pub struct ConfigService<B: HotkeyBinder> {
    config: Config,
    hotkey_service: HotkeyService<B>,
}

impl<B: HotkeyBinder> View for ConfigService<B> {
    type V = Seq<GroupView>;

    closed spec fn view(&self) -> Seq<GroupView> {
        self.config@
    }
}

impl<B: HotkeyBinder> ConfigService<B> {
    /// The hotkeys that the binder holds, by id, each with the number of
    /// the group that it opens.
    pub closed spec fn registered(&self) -> Map<u32, u128> {
        self.hotkey_service.registered()
    }

    /// The binder as it stands.
    pub closed spec fn binder_state(&self) -> B {
        self.hotkey_service.binder_state()
    }

    /// The identifiers that were given to groups, those of groups since
    /// removed among them, in the order in which they were given.
    pub closed spec fn issued(&self) -> Seq<GroupId> {
        self.config.issued()
    }

    /// Group identifiers are distinct and were given out by this service, no
    /// identifier was given out twice, no group holds an application twice,
    /// no two groups hold the same hotkey, and what the binder holds is part
    /// of what the configuration asks for.
    pub open spec fn wf(&self) -> bool {
        &&& ids_unique(self@)
        &&& apps_unique(self@)
        &&& ids_issued(self@, self.issued())
        &&& self.issued().no_duplicates()
        &&& hotkeys_unique(self@)
        &&& one_to_one(self.registered())
        &&& part_of(self.registered(), bindings(self@))
    }

    /// The binder holds exactly the hotkeys that the groups hold, each for
    /// the group that holds it.
    pub open spec fn in_sync(&self) -> bool {
        self.registered() == bindings(self@)
    }

    /// A service on this binder, with no groups.
    pub fn new(binder: B) -> (r: ConfigService<B>)
        ensures
            r.wf(),
            r.in_sync(),
            r@ == Seq::<GroupView>::empty(),
            r.issued() == Seq::<GroupId>::empty(),
            r.binder_state() == binder,
    {
        let r = ConfigService {
            config: Config::new(),
            hotkey_service: HotkeyService::new_with_binder(binder),
        };
        assert(r.registered() =~= bindings(r@));
        r
    }

    /// The configuration.
    pub fn config(&self) -> (r: &Config)
        ensures
            r@ == self@,
            r.issued() == self.issued(),
    {
        &self.config
    }

    /// The hotkey service.
    pub fn hotkey_service(&self) -> (r: &HotkeyService<B>)
        ensures
            r.registered() == self.registered(),
            r.binder_state() == self.binder_state(),
    {
        &self.hotkey_service
    }

    /// The groups, in their order.
    pub fn groups(&self) -> (r: &Vec<Group>)
        ensures
            group_views(r@) == self@,
    {
        self.config.groups()
    }

    /// The group with this identifier, where there is one.
    pub fn group(&self, group_id: GroupId) -> (r: Option<&Group>)
        requires
            self.wf(),
        ensures
            match r {
                Some(group) => found(self@, group_id) == Some(group@),
                None => found(self@, group_id) is None,
            },
    {
        self.config.group(group_id)
    }

    /// Puts a new group of this name at the end, with no hotkey and no
    /// applications, and hands back its identifier.
    pub fn add_group(&mut self, name: String) -> (r: GroupId)
        requires
            old(self).wf(),
        ensures
            final(self).wf(),
            !old(self).issued().contains(r),
            !id_taken(old(self)@, r),
            final(self).issued() == old(self).issued().push(r),
            final(self)@ == old(self)@.push(new_group(r, name@)),
            final(self).registered() == old(self).registered(),
            final(self).binder_state() == old(self).binder_state(),
            old(self).in_sync() ==> final(self).in_sync(),
    {
        let id = self.config.add_group(name);
        proof {
            lemma_bindings_push(old(self)@, new_group(id, name@));
        }
        id
    }

    /// Takes out the group with this identifier, where there is one. Its
    /// hotkey, if it has one, is given up first: the binder is asked to give
    /// it up, and is asked nothing else.
    pub fn remove_group(&mut self, group_id: GroupId)
        requires
            old(self).wf(),
        ensures
            final(self).wf(),
            final(self).issued() == old(self).issued(),
            final(self)@ == without_group(old(self)@, group_id),
            match found(old(self)@, group_id) {
                Some(group) => {
                    &&& final(self).registered() == rebound(
                        old(self).registered(),
                        None,
                        group.hotkey,
                        action_of(group),
                        true,
                    )
                    &&& match group.hotkey {
                        Some(held) => exists|release: &mut B, current: Hotkey|
                            {
                                &&& current@ == held
                                &&& *release == old(self).binder_state()
                                &&& #[trigger] call_ensures(
                                    B::unbind_hotkey,
                                    (release, current),
                                    (),
                                )
                                &&& *final(release) == final(self).binder_state()
                            },
                        None => final(self).binder_state() == old(self).binder_state(),
                    }
                },
                None => {
                    &&& final(self).binder_state() == old(self).binder_state()
                    &&& final(self).registered() == old(self).registered()
                },
            },
            old(self).in_sync() ==> final(self).in_sync(),
    {
        match self.config.get_binding(group_id) {
            Some((existing, action)) => {
                let ghost at = group_at(self@, group_id);
                let ghost group = self@[at];
                proof {
                    lemma_found_at(self@, at);
                    lemma_no_conflict(self@, None, action);
                    lemma_without_group_at(self@, at);
                    lemma_bindings_remove(self@, at);
                    lemma_rebound_part(
                        self.registered(),
                        bindings(self@),
                        None,
                        group.hotkey,
                        action,
                    );
                }
                let _ = self.hotkey_service.bind_hotkey(&self.config, None, existing, action);
                self.config.remove_group(group_id);
            },
            None => {
                proof {
                    lemma_filter_keeps_all(self@, is_other(group_id));
                }
            },
        }
    }

    /// Gives the group with this identifier another name. Fails where there
    /// is no such group.
    pub fn set_name(&mut self, group_id: GroupId, name: String) -> (r: Result<(), UnknownGroup>)
        requires
            old(self).wf(),
        ensures
            final(self).wf(),
            final(self).issued() == old(self).issued(),
            r is Ok <==> id_taken(old(self)@, group_id),
            r is Ok ==> final(self)@ == renamed(old(self)@, group_id, name@),
            r is Err ==> final(self)@ == old(self)@,
            final(self).registered() == old(self).registered(),
            final(self).binder_state() == old(self).binder_state(),
            old(self).in_sync() ==> final(self).in_sync(),
    {
        let r = self.config.set_name(group_id, name);
        proof {
            if r is Ok {
                lemma_same_hotkeys(old(self)@, self@);
            }
        }
        r
    }

    /// Puts `app` at the end of the applications of the group with this
    /// identifier, unless it is already among them. Does nothing where there
    /// is no such group.
    pub fn add_app(&mut self, group_id: GroupId, app: App)
        requires
            old(self).wf(),
        ensures
            final(self).wf(),
            final(self).issued() == old(self).issued(),
            final(self)@ == with_app_in(old(self)@, group_id, app@),
            final(self).registered() == old(self).registered(),
            final(self).binder_state() == old(self).binder_state(),
            old(self).in_sync() ==> final(self).in_sync(),
    {
        self.config.add_app(group_id, app);
        proof {
            lemma_same_hotkeys(old(self)@, self@);
        }
    }

    /// Takes the application with this identifier out of the applications of
    /// the group with this identifier. Does nothing where there is no such
    /// group.
    pub fn remove_app(&mut self, group_id: GroupId, app_id: String)
        requires
            old(self).wf(),
        ensures
            final(self).wf(),
            final(self).issued() == old(self).issued(),
            final(self)@ == without_app_in(old(self)@, group_id, app_id@),
            final(self).registered() == old(self).registered(),
            final(self).binder_state() == old(self).binder_state(),
            old(self).in_sync() ==> final(self).in_sync(),
    {
        let app = App::new(app_id.as_str());
        self.config.remove_app(group_id, &app);
        proof {
            lemma_same_hotkeys(old(self)@, self@);
        }
    }

    /// Gives the group with this identifier this hotkey, or none. Where
    /// there is no such group, or the group holds that hotkey already,
    /// nothing is done. Where another group holds the hotkey, nothing is
    /// done and that group's action is handed back. Else the binder is asked
    /// to give up the hotkey that the group held and then to register the
    /// new one, and is asked nothing else: if it registers, the group holds
    /// the new hotkey; if it refuses, the configuration stays as it was and
    /// the refusal is handed back.
    pub fn set_hotkey(&mut self, group_id: GroupId, hotkey: Option<Hotkey>) -> (r: Result<
        Option<Action>,
        BinderError,
    >)
        requires
            old(self).wf(),
        ensures
            final(self).wf(),
            final(self).issued() == old(self).issued(),
            match found(old(self)@, group_id) {
                None => {
                    &&& r == Ok::<Option<Action>, BinderError>(None)
                    &&& final(self)@ == old(self)@
                    &&& final(self).binder_state() == old(self).binder_state()
                    &&& final(self).registered() == old(self).registered()
                },
                Some(group) => match reconcile(
                    old(self)@,
                    hotkey_id_of(hotkey),
                    group.hotkey,
                    action_of(group),
                ) {
                    Reconciliation::Unchanged => {
                        &&& r == Ok::<Option<Action>, BinderError>(None)
                        &&& final(self)@ == old(self)@
                        &&& final(self).binder_state() == old(self).binder_state()
                        &&& final(self).registered() == old(self).registered()
                    },
                    Reconciliation::Conflict(other) => {
                        &&& r == Ok::<Option<Action>, BinderError>(Some(other))
                        &&& final(self)@ == old(self)@
                        &&& final(self).binder_state() == old(self).binder_state()
                        &&& final(self).registered() == old(self).registered()
                    },
                    Reconciliation::Rebind => {
                        &&& final(self)@ == if r is Ok {
                            with_hotkey(old(self)@, group_id, hotkey_id_of(hotkey))
                        } else {
                            old(self)@
                        }
                        &&& final(self).registered() == rebound(
                            old(self).registered(),
                            hotkey_id_of(hotkey),
                            group.hotkey,
                            action_of(group),
                            r is Ok,
                        )
                        &&& match (group.hotkey, hotkey) {
                            (Some(held), Some(wanted)) => exists|
                                release: &mut B,
                                current: Hotkey,
                                register: &mut B,
                                outcome: Result<(), BinderError>,
                            |
                                {
                                    &&& current@ == held
                                    &&& *release == old(self).binder_state()
                                    &&& #[trigger] call_ensures(
                                        B::unbind_hotkey,
                                        (release, current),
                                        (),
                                    )
                                    &&& *final(release) == *register
                                    &&& #[trigger] call_ensures(
                                        B::bind_hotkey,
                                        (register, wanted, &action_of(group)),
                                        outcome,
                                    )
                                    &&& *final(register) == final(self).binder_state()
                                    &&& r == answer(outcome)
                                },
                            (None, Some(wanted)) => exists|
                                register: &mut B,
                                outcome: Result<(), BinderError>,
                            |
                                {
                                    &&& *register == old(self).binder_state()
                                    &&& #[trigger] call_ensures(
                                        B::bind_hotkey,
                                        (register, wanted, &action_of(group)),
                                        outcome,
                                    )
                                    &&& *final(register) == final(self).binder_state()
                                    &&& r == answer(outcome)
                                },
                            (Some(held), None) => exists|release: &mut B, current: Hotkey|
                                {
                                    &&& current@ == held
                                    &&& *release == old(self).binder_state()
                                    &&& #[trigger] call_ensures(
                                        B::unbind_hotkey,
                                        (release, current),
                                        (),
                                    )
                                    &&& *final(release) == final(self).binder_state()
                                    &&& r == Ok::<Option<Action>, BinderError>(None)
                                },
                            (None, None) => true,
                        }
                    },
                },
            },
            old(self).in_sync() && r is Ok ==> final(self).in_sync(),
    {
        let (existing, action) = match self.config.get_binding(group_id) {
            Some(binding) => binding,
            None => {
                return Ok(None);
            },
        };
        let ghost at = group_at(self@, group_id);
        let ghost group = self@[at];
        let ghost desired = hotkey_id_of(hotkey);
        proof {
            lemma_found_at(self@, at);
            lemma_no_conflict(self@, desired, action);
            lemma_rebound_part(self.registered(), bindings(self@), desired, group.hotkey, action);
            if reconcile(self@, desired, group.hotkey, action) is Rebind {
                lemma_bindings_set(self@, at, desired);
            }
        }
        let r = self.hotkey_service.bind_hotkey(&self.config, hotkey, existing, action);
        match r {
            Ok(None) => {
                self.config.set_hotkey(group_id, hotkey);
                proof {
                    if reconcile(old(self)@, desired, group.hotkey, action) is Unchanged {
                        assert(self@ =~= old(self)@);
                    }
                }
                Ok(None)
            },
            other => other,
        }
    }
}

} // verus!
