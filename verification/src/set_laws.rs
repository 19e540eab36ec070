//! What holds of the ordered set over every state and every run of calls.
use crate::history::{
    law_handle_sees_its_own_calls, law_other_handles_do_not_interfere, ops_of, state_after_ops,
    world_after_calls, Call,
};
use crate::set::{set_after_insert, set_after_remove, set_insert_adds, set_remove_hits};
use vstd::prelude::*;

verus! {

/// One change that can be asked of a set.
pub enum SetOp {
    Insert { value: u64 },
    Remove { value: u64 },
}

/// What a set holds once `op` has been served.
pub open spec fn set_after_op(s: Set<u64>, op: SetOp) -> Set<u64> {
    match op {
        SetOp::Insert { value } => set_after_insert(s, value),
        SetOp::Remove { value } => set_after_remove(s, value),
    }
}

/// The step function of the set, as a value.
pub open spec fn set_step() -> spec_fn(Set<u64>, SetOp) -> Set<u64> {
    |s: Set<u64>, op: SetOp| set_after_op(s, op)
}

/// What a set holds once `ops` have been served in order.
pub open spec fn set_after_ops(s: Set<u64>, ops: Seq<SetOp>) -> Set<u64> {
    state_after_ops(set_step(), s, ops)
}

/// How many of `ops`, served in order from `s`, were inserts of `value` that
/// added it.
pub open spec fn successful_inserts(s: Set<u64>, ops: Seq<SetOp>, value: u64) -> nat
    decreases ops.len(),
{
    if ops.len() == 0 {
        0
    } else {
        let earlier = ops.drop_last();
        let counts = ops.last() == (SetOp::Insert { value }) && set_insert_adds(
            set_after_ops(s, earlier),
            value,
        );
        successful_inserts(s, earlier, value) + if counts {
            1nat
        } else {
            0nat
        }
    }
}

/// How many of `ops`, served in order from `s`, were removals of `value`
/// that removed it.
pub open spec fn successful_removes(s: Set<u64>, ops: Seq<SetOp>, value: u64) -> nat
    decreases ops.len(),
{
    if ops.len() == 0 {
        0
    } else {
        let earlier = ops.drop_last();
        let counts = ops.last() == (SetOp::Remove { value }) && set_remove_hits(
            set_after_ops(s, earlier),
            value,
        );
        successful_removes(s, earlier, value) + if counts {
            1nat
        } else {
            0nat
        }
    }
}

/// Inserting is idempotent: the first of two inserts of `value` in a row
/// adds it exactly when it was not a member, the second adds nothing, and
/// the second leaves the membership as the first left it. An insert of a
/// member leaves the set as it was.
pub proof fn law_set_insert_twice(s: Set<u64>, value: u64)
    ensures
        set_insert_adds(s, value) == !s.contains(value),
        !set_insert_adds(set_after_insert(s, value), value),
        set_after_insert(set_after_insert(s, value), value) == set_after_insert(s, value),
        s.contains(value) ==> set_after_insert(s, value) == s,
{
}

/// A member can be removed once: a removal of `value` removes it exactly
/// when it is a member, and right after a removal a second one removes
/// nothing and leaves the set as it was.
pub proof fn law_set_remove_twice(s: Set<u64>, value: u64)
    ensures
        set_remove_hits(s, value) == s.contains(value),
        !set_remove_hits(set_after_remove(s, value), value),
        set_after_remove(set_after_remove(s, value), value) == set_after_remove(s, value),
        !s.contains(value) ==> set_after_remove(s, value) == s,
{
}

/// Inserts and removals of `value` balance: over any run of calls, the
/// inserts that added it, plus one if it was a member at the start, are as
/// many as the removals that removed it, plus one if it is a member at the
/// end.
pub proof fn law_set_inserts_balance_removes(s: Set<u64>, ops: Seq<SetOp>, value: u64)
    ensures
        successful_inserts(s, ops, value) + (if s.contains(value) {
            1nat
        } else {
            0nat
        }) == successful_removes(s, ops, value) + (if set_after_ops(s, ops).contains(value) {
            1nat
        } else {
            0nat
        }),
    decreases ops.len(),
{
    if ops.len() > 0 {
        law_set_inserts_balance_removes(s, ops.drop_last(), value);
    }
}

/// On a handle that started empty, a removal of `value` removes it once for
/// each insert that added it and has not been answered by a removal yet, and
/// removes nothing otherwise: the inserts that added `value` are never fewer
/// than the removals that removed it and never exceed them by more than one,
/// and the next removal removes `value` exactly when they exceed them.
pub proof fn law_set_removal_once_per_insert(ops: Seq<SetOp>, value: u64)
    ensures
        ({
            let inserts = successful_inserts(Set::empty(), ops, value);
            let removes = successful_removes(Set::empty(), ops, value);
            &&& removes <= inserts <= removes + 1
            &&& set_remove_hits(set_after_ops(Set::empty(), ops), value) <==> inserts == removes
                + 1
        }),
{
    law_set_inserts_balance_removes(Set::empty(), ops, value);
}

/// Sets behind different handles do not interfere: two runs of calls that
/// agree on what is addressed to `handle`, and in which order, leave the set
/// behind it in the same state, which is the state that those calls alone
/// lead to.
pub proof fn law_set_handles_do_not_interfere(
    world: Map<int, Set<u64>>,
    calls: Seq<Call<SetOp>>,
    other_calls: Seq<Call<SetOp>>,
    handle: int,
)
    requires
        world.contains_key(handle),
        ops_of(calls, handle) == ops_of(other_calls, handle),
    ensures
        world_after_calls(set_step(), world, calls)[handle] == world_after_calls(
            set_step(),
            world,
            other_calls,
        )[handle],
        world_after_calls(set_step(), world, calls)[handle] == set_after_ops(
            world[handle],
            ops_of(calls, handle),
        ),
{
    law_other_handles_do_not_interfere(set_step(), world, calls, other_calls, handle);
    law_handle_sees_its_own_calls(set_step(), world, calls, handle);
}

} // verus!
