//! Lists with a selection.

use std::collections::HashSet;
use std::hash::Hash;
use vstd::prelude::*;
use vstd::std_specs::hash::obeys_key_model;

verus! {

/// A change that the user asks of a list.
#[derive(Debug)]
pub enum CellChange<I> {
    /// Add an item. Which one is asked of the user.
    Add,
    /// Remove these items.
    Remove(Vec<I>),
}

/// The selection after a click on the row of `id`: with the key for multiple
/// selection held, the row enters or leaves the selection; without it, the
/// row alone is selected.
pub open spec fn toggled<I>(selected: Set<I>, id: I, multi_select: bool) -> Set<I> {
    if multi_select {
        if selected.contains(id) {
            selected.remove(id)
        } else {
            selected.insert(id)
        }
    } else {
        Set::empty().insert(id)
    }
}

/// Takes a click on the row of `id`.
pub fn toggle_active<I: Eq + Hash>(selected: &mut HashSet<I>, id: I, multi_select: bool)
    requires
        obeys_key_model::<I>(),
    ensures
        final(selected)@ == toggled(old(selected)@, id, multi_select),
{
    broadcast use vstd::std_specs::hash::group_hash_axioms;

    if multi_select {
        if !selected.contains(&id) {
            selected.insert(id);
        } else {
            selected.remove(&id);
        }
    } else {
        selected.clear();
        selected.insert(id);
    }
}

/// Whether the row of `id` is selected.
pub fn is_selected<I: Eq + Hash>(selected: &HashSet<I>, id: &I) -> (r: bool)
    requires
        obeys_key_model::<I>(),
    ensures
        r == selected@.contains(*id),
{
    broadcast use vstd::std_specs::hash::group_hash_axioms;

    selected.contains(id)
}

} // verus!
