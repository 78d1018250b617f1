//! Core logic of a physics-driven merge game: timed drops of basic items,
//! pointer dragging, and collision-driven merging of item pairs into
//! higher-tier items, ending when the top-tier item is produced.
//!
//! Geometry is modelled over integers: one pixel is `UNITS_PER_PIXEL`
//! coordinate units, so every footprint, position, velocity and midpoint in
//! the contracts is exact. The physics simulation, rendering and asset
//! loading are external collaborators; this crate owns the item taxonomy,
//! the spawner, the drag controller and the merge engine.

use vstd::prelude::*;

pub mod drag;
pub mod geom;
pub mod item;
pub mod merge;
pub mod mouse_tracking;
mod rng;
pub mod spawner;
pub mod world;

verus! {

/// Coordinate units per screen pixel.
pub const UNITS_PER_PIXEL: i64 = 10_000;

/// Largest coordinate magnitude a live item may have.
pub const COORD_LIMIT: i64 = 100_000_000;

/// Largest linear velocity magnitude (per axis) a live item may have.
pub const VEL_LIMIT: i64 = 2_000_000_000;

/// Largest angular velocity magnitude a live item may have.
pub const ANG_LIMIT: i64 = 1_000_000;

} // verus!
