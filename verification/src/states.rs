//! The game states the host scheduler stacks up to decide which systems run
//! on a tick: the timeline engine records while `RunLevel` is on top and
//! rewinds while `RewindTime` is on top.

use vstd::prelude::*;

verus! {

/// The title screen, with the level picked there, if any.
pub struct MainMenu {
    pub selected_level: Option<String>,
}

/// The game is paused; `handled` notes whether the pause menu has reacted to
/// the state change yet (cursor released and made visible).
pub struct Pause {
    pub handled: bool,
}

impl Default for Pause {
    /// A freshly entered pause that no system has reacted to yet.
    fn default() -> (p: Pause)
        ensures
            !p.handled,
    {
        Pause { handled: false }
    }
}

/// The level is being (re)initialized: world reset, actors spawned.
pub struct InitLevel {}

/// The level is running: physics steps, actions are recorded, time flows
/// forward.
pub struct RunLevel {}

/// A rewind session is running: one rewind step per tick instead of a
/// physics step, until an exit condition ends the session.
pub struct RewindTime {}

} // verus!
