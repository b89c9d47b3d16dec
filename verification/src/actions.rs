//! The discrete input actions the engine is driven by.  Binding them to
//! keys and polling them is the input collaborator's business; the engine
//! only consumes the per-tick activated / held / deactivated queries.

use vstd::prelude::*;

verus! {

/// Every player-facing input action of the game.
#[derive(Debug, PartialEq, Eq, Structural, Hash, Copy, Clone)]
pub enum Action {
    MoveForward,
    MoveBackward,
    MoveLeft,
    MoveRight,
    TurnLeft,
    TurnRight,
    RewindTime,
    Pause,
    RotateCamera,
    SelectActiveObjectRight,
    SelectActiveObjectLeft,
}

} // verus!
