//! Animation tracks and generation-checked storage handles for a retained-mode
//! renderer.
//!
//! - `area`: handles into per-instance and per-view storage that is rebuilt every
//!   redraw, with typed reads and writes that degrade to zero or to no-ops when a
//!   handle has gone stale or a property is absent.
//! - `anim`: key-framed tracks, playback settings and easing; `animator`: the
//!   playback state machine, its registry of areas in flight, and the cache of last
//!   resolved values.
//!
//! Storage slots and animated scalars are of a caller-chosen type `S`; the library
//! only moves them, and takes the blend of two scalars from the caller as `lerp`.
//! Clock times are integer ticks, and normalized animation time, key times and easing
//! fractions are integers scaled to `anim::KEY_ONE`.

pub mod math;
pub mod cx;
pub mod area;
pub mod keyed;
pub mod anim;
pub mod animator;
