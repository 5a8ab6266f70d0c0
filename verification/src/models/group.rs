//! Groups: a named list of applications that may hold one hotkey.

use crate::models::hotkey::Hotkey;
use crate::os::macos::App;
use crate::sequences::{lemma_filter_keeps_all, lemma_filter_removes_one};
use vstd::prelude::*;

verus! {

/// The identifier of a group, which it keeps for as long as it lives.
#[derive(Clone, Copy, Debug, PartialEq, Eq, Hash, Structural)]
pub struct GroupId(pub u128);

/// A group as a value: its identifier, its name, the id of its hotkey where
/// it has one, and the identifiers of its applications in their order.
pub struct GroupView {
    pub id: GroupId,
    pub name: Seq<char>,
    pub hotkey: Option<u32>,
    pub apps: Seq<Seq<char>>,
}

/// The identifiers of these applications, in their order.
pub open spec fn app_ids(apps: Seq<App>) -> Seq<Seq<char>> {
    apps.map_values(|app: App| app@)
}

/// The id of this hotkey, where there is one.
pub open spec fn hotkey_id_of(hotkey: Option<Hotkey>) -> Option<u32> {
    match hotkey {
        Some(h) => Some(h@),
        None => None,
    }
}

/// The test that every application but `app` passes.
pub open spec fn is_not(app: Seq<char>) -> spec_fn(Seq<char>) -> bool {
    |other: Seq<char>| other != app
}

/// `apps` without `app`.
pub open spec fn without_app(apps: Seq<Seq<char>>, app: Seq<char>) -> Seq<Seq<char>> {
    apps.filter(is_not(app))
}

/// `apps` with `app` at its end, unless it is already among them.
pub open spec fn with_app(apps: Seq<Seq<char>>, app: Seq<char>) -> Seq<Seq<char>> {
    if apps.contains(app) {
        apps
    } else {
        apps.push(app)
    }
}

/// Whether a 128-bit value has the marks of a random UUID: version 4 and
/// the RFC variant.
pub open spec fn is_random_uuid(value: u128) -> bool {
    value & 0xf000_c000_0000_0000_0000u128 == 0x4000_8000_0000_0000_0000u128
}

/// The lower case hexadecimal digit for a number below sixteen.
pub open spec fn hex_digit(nibble: u128) -> char {
    if nibble < 10 {
        ((48 + nibble) as u8) as char
    } else {
        ((87 + nibble) as u8) as char
    }
}

/// Which of the 32 hexadecimal digits of a UUID, counted from the most
/// significant, stands at this place of its text: the text has a hyphen
/// after its 8th, 12th, 16th and 20th digit.
pub open spec fn digit_at(place: int) -> int {
    if place < 8 {
        place
    } else if place < 13 {
        place - 1
    } else if place < 18 {
        place - 2
    } else if place < 23 {
        place - 3
    } else {
        place - 4
    }
}

/// The digit of `value` that is `index` digits from the most significant of
/// its 32 hexadecimal digits.
pub open spec fn nibble(value: u128, index: int) -> u128 {
    (value >> (((31 - index) * 4) as u128)) & 0xf
}

/// The text of a UUID in its hyphenated form: 36 characters, the 32
/// hexadecimal digits of the value in lower case from the most significant
/// down, with hyphens at places 8, 13, 18 and 23.
pub open spec fn uuid_text(value: u128) -> Seq<char> {
    Seq::new(
        36,
        |place: int|
            if place == 8 || place == 13 || place == 18 || place == 23 {
                '-'
            } else {
                hex_digit(nibble(value, digit_at(place)))
            },
    )
}

/// `uuid::Uuid::new_v4`, as the 128-bit value that `as_u128` gives: random
/// bits, but for the version and variant marks, which are fixed. It stops
/// the program where the system has no random bytes to give.
#[verifier::external_body]
fn random_uuid() -> (r: u128)
    ensures
        is_random_uuid(r),
{
    uuid::Uuid::new_v4().as_u128()
}

/// `Display` of `uuid::Uuid`, on the UUID that `from_u128` makes of the value:
/// the hyphenated form in lower case.
#[verifier::external_body]
fn uuid_to_string(value: u128) -> (r: String)
    ensures
        r@ == uuid_text(value),
{
    uuid::Uuid::from_u128(value).to_string()
}

impl GroupId {
    /// A random identifier.
    pub fn random() -> (r: GroupId)
        ensures
            is_random_uuid(r.0),
    {
        GroupId(random_uuid())
    }

    /// The identifier as a 128-bit value.
    pub fn as_u128(&self) -> (r: u128)
        ensures
            r == self.0,
    {
        self.0
    }

    /// The identifier in the hyphenated form of a UUID.
    pub fn to_string(&self) -> (r: String)
        ensures
            r@ == uuid_text(self.0),
    {
        uuid_to_string(self.0)
    }
}

/// A named list of applications that may hold one hotkey.
#[derive(Debug)]
pub struct Group {
    id: GroupId,
    name: String,
    hotkey: Option<Hotkey>,
    apps: Vec<App>,
}

impl View for Group {
    type V = GroupView;

    closed spec fn view(&self) -> GroupView {
        GroupView {
            id: self.id,
            name: self.name@,
            hotkey: hotkey_id_of(self.hotkey),
            apps: app_ids(self.apps@),
        }
    }
}

/// Without an application that occurs once, a list is the list with that
/// place taken out.
pub proof fn lemma_without_app_removes(apps: Seq<Seq<char>>, at: int)
    requires
        apps.no_duplicates(),
        0 <= at < apps.len(),
    ensures
        without_app(apps, apps[at]) == apps.remove(at),
{
    lemma_filter_removes_one(apps, is_not(apps[at]), at);
}

/// Without an application that does not occur, a list is itself.
pub proof fn lemma_without_app_keeps(apps: Seq<Seq<char>>, app: Seq<char>)
    requires
        !apps.contains(app),
    ensures
        without_app(apps, app) == apps,
{
    assert forall|i: int| 0 <= i < apps.len() implies apps[i] != app by {
        assert(apps.contains(apps[i]));
    }
    lemma_filter_keeps_all(apps, is_not(app));
}

/// Taking applications out of a list without duplicates leaves none.
pub proof fn lemma_without_app_no_duplicates(apps: Seq<Seq<char>>, app: Seq<char>)
    requires
        apps.no_duplicates(),
    ensures
        without_app(apps, app).no_duplicates(),
        !without_app(apps, app).contains(app),
{
    if apps.contains(app) {
        let at = choose|i: int| 0 <= i < apps.len() && apps[i] == app;
        lemma_without_app_removes(apps, at);
        let rest = apps.remove(at);
        assert forall|i: int, j: int|
            0 <= i < rest.len() && 0 <= j < rest.len() && i != j implies rest[i] != rest[j] by {
            let oi = if i < at { i } else { i + 1 };
            let oj = if j < at { j } else { j + 1 };
            assert(rest[i] == apps[oi] && rest[j] == apps[oj]);
        }
        assert forall|i: int| 0 <= i < rest.len() implies rest[i] != app by {
            let oi = if i < at { i } else { i + 1 };
            assert(rest[i] == apps[oi]);
        }
    } else {
        lemma_without_app_keeps(apps, app);
    }
}

impl Group {
    /// No application occurs twice.
    pub open spec fn wf(&self) -> bool {
        self@.apps.no_duplicates()
    }

    /// A group of this name with a random identifier, no hotkey and no applications.
    pub fn new(name: String) -> (r: Group)
        ensures
            r.wf(),
            is_random_uuid(r@.id.0),
            r@.name == name@,
            r@.hotkey is None,
            r@.apps == Seq::<Seq<char>>::empty(),
    {
        Group::with_id(GroupId::random(), name)
    }

    /// A group of this identifier and name, with no hotkey and no applications.
    pub fn with_id(id: GroupId, name: String) -> (r: Group)
        ensures
            r.wf(),
            r@ == (GroupView { id, name: name@, hotkey: None, apps: Seq::empty() }),
    {
        let apps: Vec<App> = Vec::new();
        assert(app_ids(apps@) =~= Seq::empty());
        Group { id, name, hotkey: None, apps }
    }

    /// The identifier of the group.
    pub fn id(&self) -> (r: GroupId)
        ensures
            r == self@.id,
    {
        self.id
    }

    /// The name of the group.
    pub fn name(&self) -> (r: &String)
        ensures
            r@ == self@.name,
    {
        &self.name
    }

    /// The hotkey of the group, where it has one.
    pub fn hotkey(&self) -> (r: Option<Hotkey>)
        ensures
            hotkey_id_of(r) == self@.hotkey,
    {
        self.hotkey
    }

    /// The applications of the group, in their order.
    pub fn apps(&self) -> (r: &Vec<App>)
        ensures
            app_ids(r@) == self@.apps,
    {
        &self.apps
    }

    /// The name of the group.
    pub fn to_string(&self) -> (r: String)
        ensures
            r@ == self@.name,
    {
        self.name.clone()
    }

    /// Gives the group another name.
    pub fn set_name(&mut self, name: String)
        requires
            old(self).wf(),
        ensures
            final(self).wf(),
            final(self)@ == (GroupView { name: name@, ..old(self)@ }),
    {
        self.name = name;
    }

    /// Gives the group this hotkey, or none.
    pub fn set_hotkey(&mut self, hotkey: Option<Hotkey>)
        requires
            old(self).wf(),
        ensures
            final(self).wf(),
            final(self)@ == (GroupView { hotkey: hotkey_id_of(hotkey), ..old(self)@ }),
    {
        self.hotkey = hotkey;
    }

    /// The place of `app` among the applications of the group.
    pub fn position(&self, app: &App) -> (r: Option<usize>)
        ensures
            match r {
                Some(at) => at < self@.apps.len() && self@.apps[at as int] == app@,
                None => !self@.apps.contains(app@),
            },
    {
        let mut i: usize = 0;
        while i < self.apps.len()
            invariant
                i <= self.apps.len(),
                forall|j: int| 0 <= j < i ==> app_ids(self.apps@)[j] != app@,
            decreases self.apps.len() - i,
        {
            if self.apps[i] == *app {
                return Some(i);
            }
            i += 1;
        }
        None
    }

    /// Puts `app` at the end of the group's applications, unless it is
    /// already among them.
    pub fn add_app(&mut self, app: App)
        requires
            old(self).wf(),
        ensures
            final(self).wf(),
            final(self)@ == (GroupView { apps: with_app(old(self)@.apps, app@), ..old(self)@ }),
    {
        if self.position(&app).is_none() {
            let ghost before = self.apps@;
            self.apps.push(app);
            assert(app_ids(self.apps@) =~= app_ids(before).push(app@));
        }
    }

    /// Takes `app` out of the group's applications.
    pub fn remove_app(&mut self, app: &App)
        requires
            old(self).wf(),
        ensures
            final(self).wf(),
            final(self)@ == (GroupView { apps: without_app(old(self)@.apps, app@), ..old(self)@ }),
    {
        proof {
            lemma_without_app_no_duplicates(self@.apps, app@);
        }
        match self.position(app) {
            Some(at) => {
                let ghost before = self.apps@;
                self.apps.remove(at);
                proof {
                    assert(app_ids(self.apps@) =~= app_ids(before).remove(at as int));
                    lemma_without_app_removes(app_ids(before), at as int);
                }
            },
            None => {
                proof {
                    lemma_without_app_keeps(self@.apps, app@);
                }
            },
        }
    }
}

} // verus!
