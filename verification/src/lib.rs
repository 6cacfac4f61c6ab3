//! A per-turn decision engine for an agent on a partially observed grid
//! world: a tile grid fused from noisy scans, a weighted single-source
//! shortest-path fill over it, and a turn-windowed path reconstruction.

use vstd::prelude::*;

pub mod bot;
pub mod direction;
pub mod flood_fill;
pub mod laws;
pub mod logic;
pub mod map;
pub mod opponents;
pub mod output;
pub mod path_finding;
pub mod player;
pub mod position;
pub mod queries;
pub mod tile;
pub mod wander;

verus! {

/// Distance assigned to a cell that no fill has reached yet. Kept well
/// below `usize::MAX` so that adding any single traversal cost can never
/// overflow.
pub const UNREACHED: usize = usize::MAX / 2;

} // verus!
