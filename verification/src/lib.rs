//! Timeline history and rewind engine for a fixed-tick simulation.
//!
//! The engine records one snapshot of the simulation per tick into a bounded,
//! newest-first history buffer, together with one action record per
//! controllable actor.  Holding the rewind input moves a cursor into the past
//! (restoring recorded snapshots), releasing it replays the recorded actions
//! forward ("ghost" playback), and fresh player input during replay cuts the
//! timeline: the overridden actor's recorded future is discarded.  Rewind
//! depth is a limited resource, extended by collectible pickups.
//!
//! The snapshot payload is opaque to the engine: the physics collaborator
//! only has to provide a clonable, restorable state value, which the host
//! passes in and out of these functions by value.

pub mod actions;
pub mod camera;
pub mod player;
pub mod states;
pub mod time;
pub mod time_capsule;
pub mod ui;
