//! Host-side core of a scripted particle system.
//!
//! The library keeps the parts of the host that decide: the emission queue
//! that scripts push new particles into, the per-tick bookkeeping of the live
//! particle list, and the hot-reload state machine that decides when the
//! script is recompiled and which entry points are bound. The script engine,
//! the file system and the renderer stay outside; they hand the library plain
//! values (timestamps, compile outcomes, the values the script returned).
pub mod emission;
pub mod loader;
pub mod simulation;
