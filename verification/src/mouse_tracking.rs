//! Pointer tracking: converts a cursor position in window coordinates
//! (origin at the window's bottom-left corner) to the world-space position
//! the drag controller works with (origin at the window's center).

use crate::geom::Vec2i;
use vstd::prelude::*;

verus! {

/// The pointer's position in world coordinates, updated once per tick from
/// the latest cursor-moved event.
#[derive(Debug, Clone, Copy, PartialEq, Eq, Structural)]
pub struct MousePosition(pub Vec2i);

/// Recenters a cursor position from window coordinates to world coordinates
/// by subtracting half the window size on each axis.
pub fn track_mouse_position(cursor: Vec2i, window_width: i64, window_height: i64) -> (r:
    MousePosition)
    requires
        0 <= cursor.x <= crate::COORD_LIMIT,
        0 <= cursor.y <= crate::COORD_LIMIT,
        0 <= window_width <= crate::COORD_LIMIT,
        0 <= window_height <= crate::COORD_LIMIT,
    ensures
        r.0.x == cursor.x - window_width / 2,
        r.0.y == cursor.y - window_height / 2,
{
    MousePosition(Vec2i { x: cursor.x - window_width / 2, y: cursor.y - window_height / 2 })
}

} // verus!
