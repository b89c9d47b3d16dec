//! The controllable actor's per-tick action record, its recorded action
//! stream, and the decision between fresh player input and ghost playback.

use vstd::prelude::*;
use crate::time::{Stack, StackView, wf, clear_range};

verus! {

/// A three-component force vector, carried as the raw bit patterns of the
/// physics collaborator's scalars.  The engine never computes with the
/// components; it only records and replays them, so they stay opaque here
/// and the host converts to and from its own floating-point vectors.
#[derive(Debug, PartialEq, Eq, Structural, Clone, Copy)]
pub struct Vec3Bits {
    pub x: u32,
    pub y: u32,
    pub z: u32,
}

/// The intended input-driven force for one actor for one tick.
#[derive(Debug, PartialEq, Eq, Structural, Clone, Copy)]
pub struct Action {
    pub torque_move: Vec3Bits,
    pub torque_rotate: Vec3Bits,
}

/// The all-zero action: what an actor does on a tick with neither fresh
/// input nor a recorded action (all bit patterns zero, the collaborator's
/// representation of zero force).
pub open spec fn zero_action() -> Action {
    Action {
        torque_move: Vec3Bits { x: 0, y: 0, z: 0 },
        torque_rotate: Vec3Bits { x: 0, y: 0, z: 0 },
    }
}

impl Action {
    /// The action that applies no force at all.
    pub fn zero() -> (a: Action)
        ensures
            a == zero_action(),
    {
        Action {
            torque_move: Vec3Bits { x: 0, y: 0, z: 0 },
            torque_rotate: Vec3Bits { x: 0, y: 0, z: 0 },
        }
    }
}

/// One actor's action state: the action applied on the tick now running and
/// the recorded action stream, kept in step with the history stack (same
/// length, same newest-first indexing).
pub struct State {
    /// The action chosen for this tick; taken by the recording step.
    pub current_action: Option<Action>,
    /// Recorded actions, newest first, parallel to the snapshot history.
    pub action_stack: Vec<Option<Action>>,
}

/// Mathematical model of a [`State`].
pub ghost struct StateView {
    pub current_action: Option<Action>,
    pub action_stack: Seq<Option<Action>>,
}

impl View for State {
    type V = StateView;

    open spec fn view(&self) -> StateView {
        StateView { current_action: self.current_action, action_stack: self.action_stack@ }
    }
}

impl Default for State {
    /// A fresh actor with no action chosen and nothing recorded.
    fn default() -> (s: State)
        ensures
            s@.current_action is None,
            s@.action_stack == Seq::<Option<Action>>::empty(),
    {
        State { current_action: None, action_stack: Vec::new() }
    }
}

impl State {
    /// Cut the branch for this actor: discard its recorded actions on every
    /// slot from the already-cut boundary up to (excluding) the cursor, and
    /// advance the boundary to the cursor, so fresh input during replay
    /// permanently overrides the previously recorded future.
    pub fn clear_action_stack<S>(&mut self, time_stack: &mut Stack<S>)
        requires
            wf(old(time_stack)@),
            old(time_stack)@.index <= old(self)@.action_stack.len(),
        ensures
            final(self)@.action_stack == clear_range(
                old(self)@.action_stack,
                old(time_stack)@.index_cleared,
                old(time_stack)@.index,
            ),
            final(self)@.current_action == old(self)@.current_action,
            final(time_stack)@ == (StackView { index_cleared: old(time_stack)@.index, ..old(time_stack)@ }),
            wf(final(time_stack)@),
    {
        let ghost orig = self.action_stack@;
        let ghost from = time_stack.index_cleared as nat;
        let to = time_stack.index;
        let mut i = time_stack.index_cleared;
        while i < to
            invariant
                from <= i <= to,
                to <= orig.len(),
                self.action_stack@.len() == orig.len(),
                forall|j: int| 0 <= j < orig.len() && !(from <= j < i) ==> self.action_stack@[j] == orig[j],
                forall|j: int| from <= j < i ==> self.action_stack@[j] is None,
                self.current_action == old(self).current_action,
            decreases to - i,
        {
            self.action_stack[i] = None;
            i = i + 1;
        }
        time_stack.index_cleared = time_stack.index;
        assert(self.action_stack@ =~= clear_range(orig, from, to as nat));
    }
}

/// The action an actor performs this tick: fresh player input if there is
/// any, otherwise the action the replay step put forward for ghost playback,
/// otherwise nothing.
pub open spec fn chosen_action(current: Option<Action>, fresh: Option<Action>) -> Action {
    if fresh is Some {
        fresh->Some_0
    } else if current is Some {
        current->Some_0
    } else {
        zero_action()
    }
}

/// Decide one actor's action for this tick.
///
/// `fresh` is the action composed from this tick's player input, `Some` only
/// when the actor is the selected one and at least one movement input is
/// held.  Fresh input overrides ghost playback and cuts the branch: the
/// actor's recorded actions from the cut boundary up to the cursor are
/// discarded.  Without fresh input the actor performs the ghost action that
/// the replay step stored in `current_action`, or nothing at all.  The chosen
/// action is left in `current_action` for the recording step to pick up, and
/// returned so the host can apply its forces to the physics collaborator.
pub fn control<S>(state: &mut State, time_stack: &mut Stack<S>, fresh: Option<Action>) -> (applied: Action)
    requires
        wf(old(time_stack)@),
        old(time_stack)@.index <= old(state)@.action_stack.len(),
    ensures
        applied == chosen_action(old(state)@.current_action, fresh),
        final(state)@.current_action == Some(applied),
        fresh is Some ==> final(state)@.action_stack == clear_range(
            old(state)@.action_stack,
            old(time_stack)@.index_cleared,
            old(time_stack)@.index,
        ),
        fresh is Some ==> final(time_stack)@ == (StackView {
            index_cleared: old(time_stack)@.index,
            ..old(time_stack)@
        }),
        fresh is None ==> final(state)@.action_stack == old(state)@.action_stack
            && final(time_stack)@ == old(time_stack)@,
        wf(final(time_stack)@),
{
    let applied = match fresh {
        Some(f) => {
            state.clear_action_stack(time_stack);
            f
        },
        None => {
            match state.current_action.take() {
                Some(current) => current,
                None => Action::zero(),
            }
        },
    };
    state.current_action = Some(applied);
    applied
}

} // verus!
