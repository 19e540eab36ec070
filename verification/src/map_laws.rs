//! What holds of the ordered map over every state and every run of calls.
use crate::history::{
    law_handle_sees_its_own_calls, law_other_handles_do_not_interfere, ops_of, state_after_ops,
    world_after_calls, Call,
};
use crate::map::{map_after_insert, map_after_remove, map_insert_adds, map_lookup, map_remove_hits};
use vstd::prelude::*;

verus! {

/// One change that can be asked of a map.
pub enum MapOp {
    Insert { key: u64, value: u64 },
    Remove { key: u64 },
}

/// What a map holds once `op` has been served.
pub open spec fn map_after_op(m: Map<u64, u64>, op: MapOp) -> Map<u64, u64> {
    match op {
        MapOp::Insert { key, value } => map_after_insert(m, key, value),
        MapOp::Remove { key } => map_after_remove(m, key),
    }
}

/// The step function of the map, as a value.
pub open spec fn map_step() -> spec_fn(Map<u64, u64>, MapOp) -> Map<u64, u64> {
    |m: Map<u64, u64>, op: MapOp| map_after_op(m, op)
}

/// What a map holds once `ops` have been served in order.
pub open spec fn map_after_ops(m: Map<u64, u64>, ops: Seq<MapOp>) -> Map<u64, u64> {
    state_after_ops(map_step(), m, ops)
}

/// Keys are unique and the first value wins: when an entry for `key` is
/// offered twice in a row, the second offer adds nothing and changes nothing.
/// A lookup then yields the first value offered if the key was absent at the
/// start, and the value already bound to it otherwise.
pub proof fn law_map_first_value_wins(m: Map<u64, u64>, key: u64, first: u64, second: u64)
    ensures
        ({
            let once = map_after_insert(m, key, first);
            let twice = map_after_insert(once, key, second);
            &&& !map_insert_adds(once, key)
            &&& twice == once
            &&& !m.contains_key(key) ==> map_lookup(twice, key) == Some(first)
            &&& m.contains_key(key) ==> map_lookup(twice, key) == Some(m[key])
        }),
{
}

/// An entry lasts until its key is removed: after an entry for `key` has
/// been offered, and whatever calls follow, as long as none of them removes
/// `key`, the key is present and a lookup yields the value it was bound to
/// by that offer, which is `value` if the key was absent before it.
pub proof fn law_map_round_trip(m: Map<u64, u64>, key: u64, value: u64, ops: Seq<MapOp>)
    requires
        forall|i: int| 0 <= i < ops.len() ==> ops[i] != (MapOp::Remove { key }),
    ensures
        ({
            let offered = map_after_insert(m, key, value);
            let later = map_after_ops(offered, ops);
            &&& later.contains_key(key)
            &&& map_lookup(later, key) == map_lookup(offered, key)
            &&& !m.contains_key(key) ==> map_lookup(later, key) == Some(value)
        }),
    decreases ops.len(),
{
    if ops.len() > 0 {
        law_map_round_trip(m, key, value, ops.drop_last());
    }
}

/// Removal: removing a key right after an entry for it was offered removes
/// an entry and leaves the key absent; removing an absent key removes
/// nothing and leaves the map as it was.
pub proof fn law_map_removal(m: Map<u64, u64>, key: u64, value: u64)
    ensures
        map_remove_hits(map_after_insert(m, key, value), key),
        !map_after_remove(map_after_insert(m, key, value), key).contains_key(key),
        !m.contains_key(key) ==> !map_remove_hits(m, key) && map_after_remove(m, key) == m,
{
}

/// Maps behind different handles do not interfere: two runs of calls that
/// agree on what is addressed to `handle`, and in which order, leave the map
/// behind it in the same state, which is the state that those calls alone
/// lead to.
pub proof fn law_map_handles_do_not_interfere(
    world: Map<int, Map<u64, u64>>,
    calls: Seq<Call<MapOp>>,
    other_calls: Seq<Call<MapOp>>,
    handle: int,
)
    requires
        world.contains_key(handle),
        ops_of(calls, handle) == ops_of(other_calls, handle),
    ensures
        world_after_calls(map_step(), world, calls)[handle] == world_after_calls(
            map_step(),
            world,
            other_calls,
        )[handle],
        world_after_calls(map_step(), world, calls)[handle] == map_after_ops(
            world[handle],
            ops_of(calls, handle),
        ),
{
    law_other_handles_do_not_interfere(map_step(), world, calls, other_calls, handle);
    law_handle_sees_its_own_calls(map_step(), world, calls, handle);
}

} // verus!
