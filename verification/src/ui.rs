//! The state behind the in-game panels, and the integer bookkeeping of the
//! rewind clock widget.  Drawing itself is the presentation collaborator's
//! business: it reads the engine's counters once per frame and never writes
//! them.

use vstd::prelude::*;
use crate::time::{Stack, wf};

verus! {

/// How the game window is presented.
#[derive(Debug, PartialEq, Eq, Structural, Hash, Copy, Clone)]
pub enum WindowMode {
    BorderlessFullscreen,
    Windowed,
}

/// Persistent choices made in the pause menu.
pub struct State {
    pub show_info_panel: bool,
    pub window_mode: WindowMode,
}

impl Default for State {
    /// The presentation state the game starts with: windowed, no info panel.
    fn default() -> (s: State)
        ensures
            !s.show_info_panel,
            s.window_mode == WindowMode::Windowed,
    {
        State { show_info_panel: false, window_mode: WindowMode::Windowed }
    }
}

/// The three tick counts the rewind clock is drawn from, each measured from
/// the branch-cut boundary: elapsed ticks, ticks currently rewound, and the
/// deepest tick still reachable with the remaining unlocked depth.  The
/// presentation collaborator scales each by the stack capacity to an angle.
pub fn clock_fractions<S>(stack: &Stack<S>) -> (r: (usize, usize, usize))
    requires
        wf(stack@),
        stack@.index_cleared <= stack@.count,
        stack@.index_max + stack@.index <= usize::MAX,
    ensures
        r.0 == stack@.count - stack@.index_cleared,
        r.1 == stack@.index - stack@.index_cleared,
        r.2 == stack@.index_max + stack@.index - stack@.di - stack@.index_cleared,
{
    (
        stack.count - stack.index_cleared,
        stack.index - stack.index_cleared,
        stack.index_max - stack.di + (stack.index - stack.index_cleared),
    )
}

} // verus!
