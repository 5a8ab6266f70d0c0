//! The configuration: the groups, in the order in which the user sees them.

use crate::models::action::{action_of, Action, Actionable};
use crate::models::group::{
    hotkey_id_of, with_app, without_app, Group, GroupId, GroupView,
};
use crate::models::hotkey::Hotkey;
use crate::os::macos::App;
use crate::sequences::{lemma_filter_keeps_all, lemma_filter_removes_one, lemma_prefix_fits};
use vstd::prelude::*;

verus! {

/// These groups as values, in their order.
pub open spec fn group_views(groups: Seq<Group>) -> Seq<GroupView> {
    groups.map_values(|group: Group| group@)
}

/// No two groups have the same identifier.
pub open spec fn ids_unique(groups: Seq<GroupView>) -> bool {
    forall|i: int, j: int|
        0 <= i < groups.len() && 0 <= j < groups.len() && i != j ==> groups[i].id != groups[j].id
}

/// No group holds an application twice.
pub open spec fn apps_unique(groups: Seq<GroupView>) -> bool {
    forall|i: int| 0 <= i < groups.len() ==> (#[trigger] groups[i]).apps.no_duplicates()
}

/// No two groups hold the same hotkey.
pub open spec fn hotkeys_unique(groups: Seq<GroupView>) -> bool {
    forall|i: int, j: int|
        0 <= i < groups.len() && 0 <= j < groups.len() && i != j && groups[i].hotkey
            == groups[j].hotkey ==> groups[i].hotkey is None
}

/// Whether a group has this identifier.
pub open spec fn id_taken(groups: Seq<GroupView>, id: GroupId) -> bool {
    exists|i: int| 0 <= i < groups.len() && groups[i].id == id
}

/// The place of the group with this identifier.
pub open spec fn group_at(groups: Seq<GroupView>, id: GroupId) -> int {
    choose|i: int| 0 <= i < groups.len() && groups[i].id == id
}

/// The group with this identifier, where there is one.
pub open spec fn found(groups: Seq<GroupView>, id: GroupId) -> Option<GroupView> {
    if id_taken(groups, id) {
        Some(groups[group_at(groups, id)])
    } else {
        None
    }
}

/// The ids of the hotkeys that the groups hold.
pub open spec fn hotkey_ids(groups: Seq<GroupView>) -> Set<u32> {
    Set::new(|id: u32| exists|i: int| 0 <= i < groups.len() && groups[i].hotkey == Some(id))
}

/// Whether every group has an identifier that is among those given out.
pub open spec fn ids_issued(groups: Seq<GroupView>, issued: Seq<GroupId>) -> bool {
    forall|i: int| 0 <= i < groups.len() ==> issued.contains((#[trigger] groups[i]).id)
}

/// The smallest number that was given out as an identifier to no group.
pub open spec fn least_free(issued: Seq<GroupId>) -> u128 {
    choose|k: u128|
        !issued.contains(GroupId(k)) && forall|j: u128| j < k ==> issued.contains(GroupId(j))
}

/// The identifier that a new group gets when `candidate` is proposed for it:
/// the candidate where it was never given out, else the smallest number
/// that never was.
pub open spec fn fresh_id(issued: Seq<GroupId>, candidate: GroupId) -> GroupId {
    if issued.contains(candidate) {
        GroupId(least_free(issued))
    } else {
        candidate
    }
}

/// A new group: no hotkey, no applications.
pub open spec fn new_group(id: GroupId, name: Seq<char>) -> GroupView {
    GroupView { id, name, hotkey: None, apps: Seq::empty() }
}

/// The test that every group but the one of this identifier passes.
pub open spec fn is_other(id: GroupId) -> spec_fn(GroupView) -> bool {
    |group: GroupView| group.id != id
}

/// The groups without the one of this identifier.
pub open spec fn without_group(groups: Seq<GroupView>, id: GroupId) -> Seq<GroupView> {
    groups.filter(is_other(id))
}

/// The groups, the one of this identifier under another name.
pub open spec fn renamed(groups: Seq<GroupView>, id: GroupId, name: Seq<char>) -> Seq<GroupView> {
    groups.map_values(
        |group: GroupView|
            if group.id == id {
                GroupView { name, ..group }
            } else {
                group
            },
    )
}

/// The groups, the one of this identifier with `app` among its applications.
pub open spec fn with_app_in(groups: Seq<GroupView>, id: GroupId, app: Seq<char>) -> Seq<
    GroupView,
> {
    groups.map_values(
        |group: GroupView|
            if group.id == id {
                GroupView { apps: with_app(group.apps, app), ..group }
            } else {
                group
            },
    )
}

/// The groups, the one of this identifier without `app` among its applications.
pub open spec fn without_app_in(groups: Seq<GroupView>, id: GroupId, app: Seq<char>) -> Seq<
    GroupView,
> {
    groups.map_values(
        |group: GroupView|
            if group.id == id {
                GroupView { apps: without_app(group.apps, app), ..group }
            } else {
                group
            },
    )
}

/// The groups, the one of this identifier holding this hotkey, or none.
pub open spec fn with_hotkey(groups: Seq<GroupView>, id: GroupId, hotkey: Option<u32>) -> Seq<
    GroupView,
> {
    groups.map_values(
        |group: GroupView|
            if group.id == id {
                GroupView { hotkey, ..group }
            } else {
                group
            },
    )
}

/// Among groups with distinct identifiers, the group with a given identifier
/// is the one at the place where that identifier stands.
pub proof fn lemma_found_at(groups: Seq<GroupView>, at: int)
    requires
        ids_unique(groups),
        0 <= at < groups.len(),
    ensures
        id_taken(groups, groups[at].id),
        group_at(groups, groups[at].id) == at,
        found(groups, groups[at].id) == Some(groups[at]),
{
}

/// Among groups with distinct identifiers, taking out the group with a given
/// identifier takes out one place.
pub proof fn lemma_without_group_at(groups: Seq<GroupView>, at: int)
    requires
        ids_unique(groups),
        0 <= at < groups.len(),
    ensures
        without_group(groups, groups[at].id) == groups.remove(at),
{
    lemma_filter_removes_one(groups, is_other(groups[at].id), at);
}

/// Some number at most the count of the identifiers given out was never
/// given out, so there is a smallest such number.
pub proof fn lemma_least_free(issued: Seq<GroupId>)
    requires
        issued.len() < u128::MAX,
    ensures
        !issued.contains(GroupId(least_free(issued))),
        forall|j: u128| j < least_free(issued) ==> issued.contains(GroupId(j)),
        least_free(issued) <= issued.len(),
{
    let taken = Set::new(|k: u128| issued.contains(GroupId(k)));
    let numbers = issued.map_values(|id: GroupId| id.0);
    assert(taken =~= numbers.to_set()) by {
        assert forall|k: u128| taken.contains(k) implies numbers.to_set().contains(k) by {
            let i = choose|i: int| 0 <= i < issued.len() && issued[i] == GroupId(k);
            assert(numbers[i] == k);
        }
        assert forall|k: u128| numbers.to_set().contains(k) implies taken.contains(k) by {
            let i = choose|i: int| 0 <= i < numbers.len() && numbers[i] == k;
            assert(issued[i] == GroupId(k));
        }
    }
    numbers.lemma_cardinality_of_set();
    let bound = issued.len();
    if forall|j: u128| j <= bound ==> taken.contains(j) {
        lemma_prefix_fits(taken, bound + 1);
        assert(false);
    }
    let free = choose|j: u128| j <= bound && !taken.contains(j);
    lemma_least_below(issued, free);
}

/// Below any number that was never given out, the smallest such number exists.
proof fn lemma_least_below(issued: Seq<GroupId>, free: u128)
    requires
        !issued.contains(GroupId(free)),
    ensures
        !issued.contains(GroupId(least_free(issued))),
        forall|j: u128| j < least_free(issued) ==> issued.contains(GroupId(j)),
        least_free(issued) <= free,
    decreases free,
{
    if forall|j: u128| j < free ==> issued.contains(GroupId(j)) {
        assert(!issued.contains(GroupId(free)) && forall|j: u128|
            j < free ==> issued.contains(GroupId(j)));
        let least = least_free(issued);
        if least > free {
            assert(issued.contains(GroupId(free)));
        }
    } else {
        let below = choose|j: u128| j < free && !issued.contains(GroupId(j));
        lemma_least_below(issued, below);
    }
}

/// A group whose identifier was never given out is none of the groups.
pub proof fn lemma_not_issued_not_taken(groups: Seq<GroupView>, issued: Seq<GroupId>, id: GroupId)
    requires
        ids_issued(groups, issued),
        !issued.contains(id),
    ensures
        !id_taken(groups, id),
{
    if id_taken(groups, id) {
        let i = choose|i: int| 0 <= i < groups.len() && groups[i].id == id;
        assert(issued.contains(groups[i].id));
    }
}

/// The groups of a configuration, in the order in which the user sees them,
/// and a record of every identifier that it gave to a group, so that none
/// is given twice. Its view is the sequence of the groups as values.
pub struct Config {
    groups: Vec<Group>,
    issued: Vec<GroupId>,
}

impl View for Config {
    type V = Seq<GroupView>;

    closed spec fn view(&self) -> Seq<GroupView> {
        group_views(self.groups@)
    }
}

impl Config {
    /// The identifiers that this configuration gave to groups, those of
    /// groups since removed among them, in the order in which it gave them.
    pub closed spec fn issued(&self) -> Seq<GroupId> {
        self.issued@
    }

    /// Group identifiers are distinct and were given out by this
    /// configuration, no identifier was given out twice, and no group holds
    /// an application twice.
    pub open spec fn wf(&self) -> bool {
        &&& ids_unique(self@)
        &&& apps_unique(self@)
        &&& ids_issued(self@, self.issued())
        &&& self.issued().no_duplicates()
    }

    /// A configuration without groups, which gave out no identifier yet.
    pub fn new() -> (r: Config)
        ensures
            r.wf(),
            r@ == Seq::<GroupView>::empty(),
            r.issued() == Seq::<GroupId>::empty(),
    {
        let groups: Vec<Group> = Vec::new();
        assert(group_views(groups@) =~= Seq::empty());
        Config { groups, issued: Vec::new() }
    }

    /// Whether this configuration gave this identifier to a group, be the
    /// group removed since or not.
    pub fn was_issued(&self, group_id: GroupId) -> (r: bool)
        ensures
            r == self.issued().contains(group_id),
    {
        let mut i: usize = 0;
        while i < self.issued.len()
            invariant
                i <= self.issued.len(),
                forall|j: int| 0 <= j < i ==> self.issued@[j] != group_id,
            decreases self.issued.len() - i,
        {
            if self.issued[i] == group_id {
                return true;
            }
            i += 1;
        }
        false
    }

    /// The groups, in their order.
    pub fn groups(&self) -> (r: &Vec<Group>)
        ensures
            group_views(r@) == self@,
    {
        &self.groups
    }

    /// The place of the group with this identifier.
    pub fn position(&self, group_id: GroupId) -> (r: Option<usize>)
        ensures
            match r {
                Some(at) => at < self@.len() && self@[at as int].id == group_id,
                None => !id_taken(self@, group_id),
            },
    {
        let mut i: usize = 0;
        while i < self.groups.len()
            invariant
                i <= self.groups.len(),
                forall|j: int| 0 <= j < i ==> group_views(self.groups@)[j].id != group_id,
            decreases self.groups.len() - i,
        {
            if self.groups[i].id() == group_id {
                return Some(i);
            }
            i += 1;
        }
        None
    }

    /// The group with this identifier, where there is one.
    pub fn group(&self, group_id: GroupId) -> (r: Option<&Group>)
        requires
            self.wf(),
        ensures
            match r {
                Some(group) => found(self@, group_id) == Some(group@),
                None => found(self@, group_id) is None,
            },
    {
        match self.position(group_id) {
            Some(at) => {
                proof {
                    lemma_found_at(self@, at as int);
                }
                Some(&self.groups[at])
            },
            None => None,
        }
    }

    /// The hotkey of the group with this identifier and the action that
    /// belongs to the group, where there is such a group.
    pub fn get_binding(&self, group_id: GroupId) -> (r: Option<(Option<Hotkey>, Action)>)
        requires
            self.wf(),
        ensures
            match r {
                Some((hotkey, action)) => found(self@, group_id) matches Some(group)
                    && hotkey_id_of(hotkey) == group.hotkey && action == action_of(group),
                None => found(self@, group_id) is None,
            },
    {
        match self.group(group_id) {
            Some(group) => Some((group.hotkey(), group.action())),
            None => None,
        }
    }

    /// Puts a new group of this name at the end: with the proposed identifier
    /// where this configuration never gave it out, else with the smallest
    /// number that it never gave out. Hands back the identifier that the
    /// group got, and keeps it on record.
    pub fn add_group_with_id(&mut self, candidate: GroupId, name: String) -> (r: GroupId)
        requires
            old(self).wf(),
        ensures
            final(self).wf(),
            r == fresh_id(old(self).issued(), candidate),
            !old(self).issued().contains(r),
            !id_taken(old(self)@, r),
            final(self).issued() == old(self).issued().push(r),
            final(self)@ == old(self)@.push(new_group(r, name@)),
    {
        let id = if self.was_issued(candidate) {
            let count: usize = self.issued.len();
            proof {
                assert(self.issued().len() == count);
                lemma_least_free(self.issued());
            }
            let mut k: u128 = 0;
            while self.was_issued(GroupId(k))
                invariant
                    forall|j: u128| j < k ==> self.issued().contains(GroupId(j)),
                    !self.issued().contains(GroupId(least_free(self.issued()))),
                    least_free(self.issued()) <= self.issued().len(),
                    self.issued().len() == self.issued@.len(),
                    k <= least_free(self.issued()),
                decreases least_free(self.issued()) - k,
            {
                k += 1;
            }
            assert(k == least_free(self.issued()));
            GroupId(k)
        } else {
            candidate
        };
        let ghost before = self.groups@;
        let ghost given = self.issued@;
        proof {
            lemma_not_issued_not_taken(self@, self.issued(), id);
        }
        let group = Group::with_id(id, name);
        self.groups.push(group);
        self.issued.push(id);
        proof {
            assert(group_views(self.groups@) =~= group_views(before).push(new_group(id, name@)));
            assert(new_group(id, name@).apps.no_duplicates());
            assert forall|i: int| 0 <= i < self@.len() implies self.issued().contains(
                (#[trigger] self@[i]).id,
            ) by {
                if i < before.len() {
                    let at = choose|at: int| 0 <= at < given.len() && given[at] == self@[i].id;
                    assert(self.issued()[at] == self@[i].id);
                } else {
                    assert(self.issued()[given.len() as int] == id);
                }
            }
        }
        id
    }

    /// Puts a new group of this name at the end, with an identifier that this
    /// configuration never gave out before, and hands back the identifier.
    pub fn add_group(&mut self, name: String) -> (r: GroupId)
        requires
            old(self).wf(),
        ensures
            final(self).wf(),
            !old(self).issued().contains(r),
            !id_taken(old(self)@, r),
            final(self).issued() == old(self).issued().push(r),
            final(self)@ == old(self)@.push(new_group(r, name@)),
    {
        self.add_group_with_id(GroupId::random(), name)
    }

    /// Takes out the group with this identifier, where there is one.
    pub fn remove_group(&mut self, group_id: GroupId)
        requires
            old(self).wf(),
        ensures
            final(self).wf(),
            final(self).issued() == old(self).issued(),
            final(self)@ == without_group(old(self)@, group_id),
    {
        match self.position(group_id) {
            Some(at) => {
                let ghost before = self.groups@;
                proof {
                    lemma_without_group_at(self@, at as int);
                }
                self.groups.remove(at);
                proof {
                    assert(group_views(self.groups@) =~= group_views(before).remove(at as int));
                }
            },
            None => {
                proof {
                    lemma_filter_keeps_all(self@, is_other(group_id));
                }
            },
        }
    }

    /// Gives the group with this identifier another name. Fails where there
    /// is no such group.
    pub fn set_name(&mut self, group_id: GroupId, name: String) -> (r: Result<(), UnknownGroup>)
        requires
            old(self).wf(),
        ensures
            final(self).wf(),
            final(self).issued() == old(self).issued(),
            r is Ok <==> id_taken(old(self)@, group_id),
            r is Ok ==> final(self)@ == renamed(old(self)@, group_id, name@),
            r is Err ==> final(self)@ == old(self)@,
    {
        match self.position(group_id) {
            Some(at) => {
                self.groups[at].set_name(name);
                proof {
                    assert(group_views(self.groups@) =~= renamed(old(self)@, group_id, name@));
                }
                Ok(())
            },
            None => Err(UnknownGroup),
        }
    }

    /// Puts `app` at the end of the applications of the group with this
    /// identifier, unless it is already among them. Does nothing where there
    /// is no such group.
    pub fn add_app(&mut self, group_id: GroupId, app: App)
        requires
            old(self).wf(),
        ensures
            final(self).wf(),
            final(self).issued() == old(self).issued(),
            final(self)@ == with_app_in(old(self)@, group_id, app@),
    {
        match self.position(group_id) {
            Some(at) => {
                self.groups[at].add_app(app);
            },
            None => {},
        }
        proof {
            assert(group_views(self.groups@) =~= with_app_in(old(self)@, group_id, app@));
        }
    }

    /// Takes `app` out of the applications of the group with this identifier.
    /// Does nothing where there is no such group.
    pub fn remove_app(&mut self, group_id: GroupId, app: &App)
        requires
            old(self).wf(),
        ensures
            final(self).wf(),
            final(self).issued() == old(self).issued(),
            final(self)@ == without_app_in(old(self)@, group_id, app@),
    {
        match self.position(group_id) {
            Some(at) => {
                self.groups[at].remove_app(app);
            },
            None => {},
        }
        proof {
            assert(group_views(self.groups@) =~= without_app_in(old(self)@, group_id, app@));
        }
    }

    /// Gives the group with this identifier this hotkey, or none, whatever
    /// the other groups hold and whatever is registered with the system:
    /// the hotkey service is the one to call it. Does nothing where there is
    /// no such group.
    pub fn set_hotkey(&mut self, group_id: GroupId, hotkey: Option<Hotkey>)
        requires
            old(self).wf(),
        ensures
            final(self).wf(),
            final(self).issued() == old(self).issued(),
            final(self)@ == with_hotkey(old(self)@, group_id, hotkey_id_of(hotkey)),
    {
        match self.position(group_id) {
            Some(at) => {
                self.groups[at].set_hotkey(hotkey);
            },
            None => {},
        }
        proof {
            assert(group_views(self.groups@) =~= with_hotkey(
                old(self)@,
                group_id,
                hotkey_id_of(hotkey),
            ));
        }
    }
}

impl Default for Config {
    fn default() -> (r: Config)
        ensures
            r.wf(),
            r@ == Seq::<GroupView>::empty(),
            r.issued() == Seq::<GroupId>::empty(),
    {
        Config::new()
    }
}

/// No group has the identifier that was asked for.
#[derive(Clone, Copy, Debug, PartialEq, Eq, Structural)]
pub struct UnknownGroup;

} // verus!
