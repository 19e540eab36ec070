//! Histories: the changes asked of a handle, in the order of their issue.
//!
//! A container's state after a run of calls is the fold of its step function
//! over the changes addressed to it. When calls to several handles are
//! interleaved, each handle sees its own calls only.
use vstd::prelude::*;

verus! {

/// The state that `ops`, applied in order from `state`, lead to.
pub open spec fn state_after_ops<S, Op>(step: spec_fn(S, Op) -> S, state: S, ops: Seq<Op>) -> S
    decreases ops.len(),
{
    if ops.len() == 0 {
        state
    } else {
        step(state_after_ops(step, state, ops.drop_last()), ops.last())
    }
}

/// One change together with the handle it is addressed to.
pub struct Call<Op> {
    pub handle: int,
    pub op: Op,
}

/// The changes among `calls` that are addressed to `handle`, in their order
/// of issue.
pub open spec fn ops_of<Op>(calls: Seq<Call<Op>>, handle: int) -> Seq<Op>
    decreases calls.len(),
{
    if calls.len() == 0 {
        Seq::empty()
    } else if calls.last().handle == handle {
        ops_of(calls.drop_last(), handle).push(calls.last().op)
    } else {
        ops_of(calls.drop_last(), handle)
    }
}

/// The live handles and their containers once `call` has been served. Only
/// the container of the addressed handle takes the step.
pub open spec fn world_after_call<S, Op>(
    step: spec_fn(S, Op) -> S,
    world: Map<int, S>,
    call: Call<Op>,
) -> Map<int, S> {
    if world.contains_key(call.handle) {
        world.insert(call.handle, step(world[call.handle], call.op))
    } else {
        world
    }
}

/// The live handles and their containers once `calls` have been served in
/// order.
pub open spec fn world_after_calls<S, Op>(
    step: spec_fn(S, Op) -> S,
    world: Map<int, S>,
    calls: Seq<Call<Op>>,
) -> Map<int, S>
    decreases calls.len(),
{
    if calls.len() == 0 {
        world
    } else {
        world_after_call(step, world_after_calls(step, world, calls.drop_last()), calls.last())
    }
}

/// Serving calls neither creates nor releases a handle, and the container of
/// a live handle ends in the state that its own calls, taken in their order
/// of issue, lead to from its state at the start.
pub proof fn law_handle_sees_its_own_calls<S, Op>(
    step: spec_fn(S, Op) -> S,
    world: Map<int, S>,
    calls: Seq<Call<Op>>,
    handle: int,
)
    ensures
        world_after_calls(step, world, calls).dom() == world.dom(),
        world.contains_key(handle) ==> world_after_calls(step, world, calls)[handle]
            == state_after_ops(step, world[handle], ops_of(calls, handle)),
    decreases calls.len(),
{
    if calls.len() > 0 {
        let earlier = calls.drop_last();
        let mine = ops_of(earlier, handle);
        law_handle_sees_its_own_calls(step, world, earlier, handle);
        if calls.last().handle == handle {
            assert(mine.push(calls.last().op).drop_last() =~= mine);
        }
    }
}

/// Calls addressed to other handles do not interfere: two runs of calls that
/// agree on what is addressed to `handle`, and in which order, leave its
/// container in the same state, however the calls to other handles differ.
pub proof fn law_other_handles_do_not_interfere<S, Op>(
    step: spec_fn(S, Op) -> S,
    world: Map<int, S>,
    calls: Seq<Call<Op>>,
    other_calls: Seq<Call<Op>>,
    handle: int,
)
    requires
        world.contains_key(handle),
        ops_of(calls, handle) == ops_of(other_calls, handle),
    ensures
        world_after_calls(step, world, calls)[handle] == world_after_calls(
            step,
            world,
            other_calls,
        )[handle],
{
    law_handle_sees_its_own_calls(step, world, calls, handle);
    law_handle_sees_its_own_calls(step, world, other_calls, handle);
}

} // verus!
