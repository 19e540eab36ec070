//! The ordered map: unique `u64` keys, each bound to one `u64` value.
use std::collections::BTreeMap;
use vstd::prelude::*;

verus! {

/// Whether offering an entry for `key` adds it: only an absent key is bound.
pub open spec fn map_insert_adds(m: Map<u64, u64>, key: u64) -> bool {
    !m.contains_key(key)
}

/// Whether asking for the removal of `key` removes an entry.
pub open spec fn map_remove_hits(m: Map<u64, u64>, key: u64) -> bool {
    m.contains_key(key)
}

/// What a map holds once `(key, value)` has been offered to it: the entry is
/// added when `key` is absent, and nothing changes when `key` is present.
pub open spec fn map_after_insert(m: Map<u64, u64>, key: u64, value: u64) -> Map<u64, u64> {
    if m.contains_key(key) {
        m
    } else {
        m.insert(key, value)
    }
}

/// What a lookup of `key` yields: the bound value, kept apart from the answer
/// that there is none, so that every `u64`, zero included, can be stored.
pub open spec fn map_lookup(m: Map<u64, u64>, key: u64) -> Option<u64> {
    if m.contains_key(key) {
        Some(m[key])
    } else {
        None
    }
}

/// What a map holds once the removal of `key` has been asked for.
pub open spec fn map_after_remove(m: Map<u64, u64>, key: u64) -> Map<u64, u64> {
    m.remove(key)
}

/// Handle of one ordered map from `u64` keys to `u64` values.
#[allow(non_camel_case_types)]
pub struct bl_ptr_btree {
    btree: BTreeMap<u64, u64>,
}

impl View for bl_ptr_btree {
    type V = Map<u64, u64>;

    closed spec fn view(&self) -> Map<u64, u64> {
        self.btree@
    }
}

/// Creates a handle that owns a new, empty map.
pub fn bl_ptr_btree_new() -> (handle: bl_ptr_btree)
    ensures
        handle@ == Map::<u64, u64>::empty(),
{
    bl_ptr_btree { btree: BTreeMap::new() }
}

/// Binds `wl_surface` to `bl_surface` unless `wl_surface` is already bound.
///
/// Returns `true` when the entry was added. When the key is present the map
/// is left as it was, the stored value included, and `false` is returned.
pub fn bl_ptr_btree_insert(btree: &mut bl_ptr_btree, wl_surface: u64, bl_surface: u64) -> (inserted:
    bool)
    ensures
        inserted == map_insert_adds(old(btree)@, wl_surface),
        final(btree)@ == map_after_insert(old(btree)@, wl_surface, bl_surface),
{
    if btree.btree.contains_key(&wl_surface) {
        return false;
    }
    btree.btree.insert(wl_surface, bl_surface);
    true
}

/// Tells whether `wl_surface` is bound. The map is not changed.
pub fn bl_ptr_btree_contains(btree: &bl_ptr_btree, wl_surface: u64) -> (present: bool)
    ensures
        present == btree@.contains_key(wl_surface),
{
    btree.btree.contains_key(&wl_surface)
}

/// Looks up the value bound to `wl_surface`.
///
/// Presence and value are reported apart: `Some(value)` when the key is
/// bound, `None` when it is not. The map is not changed.
pub fn bl_ptr_btree_get(btree: &bl_ptr_btree, wl_surface: u64) -> (found: Option<u64>)
    ensures
        found == map_lookup(btree@, wl_surface),
{
    match btree.btree.get(&wl_surface) {
        Some(value) => Some(*value),
        None => None,
    }
}

/// Removes the entry of `wl_surface`, if there is one.
///
/// Returns whether an entry was removed. Every other entry stays as it was;
/// when the key is absent the map is not changed at all.
pub fn bl_ptr_btree_remove(btree: &mut bl_ptr_btree, wl_surface: u64) -> (removed: bool)
    ensures
        removed == map_remove_hits(old(btree)@, wl_surface),
        final(btree)@ == map_after_remove(old(btree)@, wl_surface),
{
    match btree.btree.remove(&wl_surface) {
        Some(_) => true,
        None => false,
    }
}

/// Releases the handle and destroys the map it owns.
///
/// The handle is taken by value, so after the call no operation can name it
/// and it cannot be released a second time.
pub fn bl_ptr_btree_free(btree: bl_ptr_btree) {
    let _released = btree;
}

} // verus!
