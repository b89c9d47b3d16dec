//! Collectible time capsules: picking one up unlocks additional rewind
//! depth.  Proximity detection and the pickup's animation stay with the
//! host; the engine only applies the grant.

use vstd::prelude::*;
use crate::time::{grant_tr, wf, Stack, STACK_MAX_SIZE};

verus! {

/// Apply one capsule's effect for this tick: when the player stands close
/// enough (`near`) and the unlocked depth has not reached the stack capacity
/// yet, half a stack of extra rewind depth is granted and the capsule is
/// consumed.  Granting works mid-rewind just as well: the session sees the
/// new depth immediately.
pub fn control<S>(stack: &mut Stack<S>, near: bool) -> (collected: bool)
    requires
        wf(old(stack)@),
    ensures
        collected == (near && old(stack)@.index_max < STACK_MAX_SIZE),
        collected ==> final(stack)@ == grant_tr(old(stack)@, (STACK_MAX_SIZE / 2) as nat),
        !collected ==> final(stack)@ == old(stack)@,
        wf(final(stack)@),
{
    if near && stack.index_max < STACK_MAX_SIZE {
        stack.grant(STACK_MAX_SIZE / 2);
        true
    } else {
        false
    }
}

} // verus!
