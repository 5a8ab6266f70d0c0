//! The registry: which hotkey is registered for which group, kept both ways.

use vstd::prelude::*;

verus! {

/// The two-way hash map of `bimap`.
#[verifier::external_type_specification]
#[verifier::external_body]
#[verifier::reject_recursive_types(L)]
#[verifier::reject_recursive_types(R)]
#[verifier::reject_recursive_types(LS)]
#[verifier::reject_recursive_types(RS)]
pub struct ExBiHashMap<L, R, LS, RS>(bimap::BiHashMap<L, R, LS, RS>);

/// What a two-way map holds: each left value with its right value.
pub uninterp spec fn pairs(map: bimap::BiHashMap<u32, u128>) -> Map<u32, u128>;

/// A map with the pair of `left` and `right`, in place of any pair that had
/// the same left value or the same right value.
pub open spec fn paired(pairs: Map<u32, u128>, left: u32, right: u128) -> Map<u32, u128> {
    Map::new(
        |l: u32| l == left || (pairs.dom().contains(l) && pairs[l] != right),
        |l: u32|
            if l == left {
                right
            } else {
                pairs[l]
            },
    )
}

/// No right value stands beside two left values.
pub open spec fn one_to_one(pairs: Map<u32, u128>) -> bool {
    forall|a: u32, b: u32|
        pairs.dom().contains(a) && pairs.dom().contains(b) && pairs[a] == pairs[b] ==> a == b
}

/// `BiHashMap::new`: the empty map.
#[verifier::external_body]
fn bimap_new() -> (r: bimap::BiHashMap<u32, u128>)
    ensures
        pairs(r) == (Map::<u32, u128>::empty()),
{
    bimap::BiHashMap::new()
}

/// `BiHashMap::get_by_left`: the right value beside `left`, where the map
/// holds `left`.
#[verifier::external_body]
fn bimap_get_by_left(map: &bimap::BiHashMap<u32, u128>, left: u32) -> (r: Option<u128>)
    ensures
        r == (if pairs(*map).dom().contains(left) {
            Some(pairs(*map)[left])
        } else {
            None
        }),
{
    map.get_by_left(&left).copied()
}

/// `BiHashMap::remove_by_left`: the pair of `left` leaves the map, where
/// there is one; every other pair stays.
#[verifier::external_body]
fn bimap_remove_by_left(map: &mut bimap::BiHashMap<u32, u128>, left: u32)
    ensures
        pairs(*final(map)) == pairs(*old(map)).remove(left),
{
    map.remove_by_left(&left);
}

/// `BiHashMap::insert`: the pairs that hold `left` or `right` leave the map,
/// then the pair of the two enters it.
#[verifier::external_body]
fn bimap_insert(map: &mut bimap::BiHashMap<u32, u128>, left: u32, right: u128)
    ensures
        pairs(*final(map)) == paired(pairs(*old(map)), left, right),
{
    map.insert(left, right);
}

/// `BiHashMap::left_values`: every left value of the map once, in an order
/// that the map chooses.
#[verifier::external_body]
fn bimap_left_values(map: &bimap::BiHashMap<u32, u128>) -> (r: Vec<u32>)
    ensures
        r@.no_duplicates(),
        r@.to_set() == pairs(*map).dom(),
{
    map.left_values().copied().collect()
}

/// Which hotkey is registered for which group. Its view maps the id of each
/// registered hotkey to the number of the group that it opens.
pub struct Registry {
    map: bimap::BiHashMap<u32, u128>,
}

impl View for Registry {
    type V = Map<u32, u128>;

    closed spec fn view(&self) -> Map<u32, u128> {
        pairs(self.map)
    }
}

impl Registry {
    /// No group stands beside two hotkeys.
    pub open spec fn wf(&self) -> bool {
        one_to_one(self@)
    }

    /// The empty registry.
    pub fn new() -> (r: Registry)
        ensures
            r.wf(),
            r@ == (Map::<u32, u128>::empty()),
    {
        Registry { map: bimap_new() }
    }

    /// The group for which this hotkey is registered, where it is.
    pub fn group_of(&self, hotkey: u32) -> (r: Option<u128>)
        ensures
            r == (if self@.dom().contains(hotkey) {
                Some(self@[hotkey])
            } else {
                None
            }),
    {
        bimap_get_by_left(&self.map, hotkey)
    }

    /// Forgets this hotkey.
    pub fn remove(&mut self, hotkey: u32)
        requires
            old(self).wf(),
        ensures
            final(self).wf(),
            final(self)@ == old(self)@.remove(hotkey),
    {
        bimap_remove_by_left(&mut self.map, hotkey);
    }

    /// Notes this hotkey for this group, in place of what was noted for
    /// either.
    pub fn insert(&mut self, hotkey: u32, group: u128)
        requires
            old(self).wf(),
        ensures
            final(self).wf(),
            final(self)@ == paired(old(self)@, hotkey, group),
    {
        bimap_insert(&mut self.map, hotkey, group);
    }

    /// The ids of the registered hotkeys, each once, in no particular order.
    pub fn hotkeys(&self) -> (r: Vec<u32>)
        ensures
            r@.no_duplicates(),
            r@.to_set() == self@.dom(),
    {
        bimap_left_values(&self.map)
    }
}

} // verus!
