//! Ordered containers over 64-bit identifiers.
//!
//! Two sibling containers are provided: an ordered map from a `u64` key to a
//! `u64` value ([`map::bl_ptr_btree`]) and an ordered set of `u64` values
//! ([`set::bl_ptr_set`]). Each container is reached through a flat table of
//! free functions that take the handle as their first argument.
//!
//! A handle is the sole owner of its container. Every operation borrows the
//! handle for the duration of the call; only the release function consumes
//! it, so a released handle cannot be named again and cannot be released
//! twice. A handle is not meant to be shared between execution contexts
//! without outside synchronisation.
pub mod history;
pub mod map;
pub mod map_laws;
pub mod set;
pub mod set_laws;

pub use map::{
    bl_ptr_btree, bl_ptr_btree_contains, bl_ptr_btree_free, bl_ptr_btree_get, bl_ptr_btree_insert,
    bl_ptr_btree_new, bl_ptr_btree_remove,
};
pub use set::{
    bl_ptr_set, bl_ptr_set_contains, bl_ptr_set_free, bl_ptr_set_insert, bl_ptr_set_new,
    bl_ptr_set_remove,
};
