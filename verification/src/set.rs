//! The ordered set: `u64` values, each held at most once.
use std::collections::BTreeSet;
use vstd::prelude::*;

verus! {

/// Whether offering `value` adds it: only a value that is not yet a member
/// is added.
pub open spec fn set_insert_adds(s: Set<u64>, value: u64) -> bool {
    !s.contains(value)
}

/// Whether asking for the removal of `value` removes a member.
pub open spec fn set_remove_hits(s: Set<u64>, value: u64) -> bool {
    s.contains(value)
}

/// What a set holds once `value` has been offered to it. A member is held
/// once, so offering a value that is already a member leaves the set as it
/// was.
pub open spec fn set_after_insert(s: Set<u64>, value: u64) -> Set<u64> {
    s.insert(value)
}

/// What a set holds once the removal of `value` has been asked for.
pub open spec fn set_after_remove(s: Set<u64>, value: u64) -> Set<u64> {
    s.remove(value)
}

/// Handle of one ordered set of `u64` values.
#[allow(non_camel_case_types)]
pub struct bl_ptr_set {
    members: BTreeSet<u64>,
}

impl View for bl_ptr_set {
    type V = Set<u64>;

    closed spec fn view(&self) -> Set<u64> {
        self.members@
    }
}

/// Creates a handle that owns a new, empty set.
pub fn bl_ptr_set_new() -> (handle: bl_ptr_set)
    ensures
        handle@ == Set::<u64>::empty(),
{
    bl_ptr_set { members: BTreeSet::new() }
}

/// Adds `value` to the set.
///
/// Returns `true` when the value was newly added. When it is already a
/// member the set is left as it was and `false` is returned.
pub fn bl_ptr_set_insert(set: &mut bl_ptr_set, value: u64) -> (inserted: bool)
    ensures
        inserted == set_insert_adds(old(set)@, value),
        final(set)@ == set_after_insert(old(set)@, value),
{
    set.members.insert(value)
}

/// Tells whether `value` is a member. The set is not changed.
pub fn bl_ptr_set_contains(set: &bl_ptr_set, value: u64) -> (present: bool)
    ensures
        present == set@.contains(value),
{
    set.members.contains(&value)
}

/// Removes `value` from the set, if it is a member.
///
/// Returns whether the value was removed. Every other member stays; when the
/// value is absent the set is not changed at all.
pub fn bl_ptr_set_remove(set: &mut bl_ptr_set, value: u64) -> (removed: bool)
    ensures
        removed == set_remove_hits(old(set)@, value),
        final(set)@ == set_after_remove(old(set)@, value),
{
    set.members.remove(&value)
}

/// Releases the handle and destroys the set it owns.
///
/// The handle is taken by value, so after the call no operation can name it
/// and it cannot be released a second time.
pub fn bl_ptr_set_free(set: bl_ptr_set) {
    let _released = set;
}

} // verus!
