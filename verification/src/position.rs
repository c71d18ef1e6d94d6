//! Cells of the field and single steps between them.

use vstd::prelude::*;

verus! {

/// Number of columns of the field.
pub const FIELD_WIDTH: i32 = 30;

/// Number of rows of the field.
pub const FIELD_HEIGHT: i32 = 12;

/// A cell coordinate. Nothing here confines it to the field; see
/// [`Position::in_field`].
#[derive(Debug, Clone, Copy, PartialEq, Eq, Structural)]
pub struct Position {
    pub x: i32,
    pub y: i32,
}

/// The sign of `i`: -1, 0 or 1.
pub open spec fn sign(i: int) -> int {
    if i > 0 {
        1
    } else if i < 0 {
        -1
    } else {
        0
    }
}

/// The step that a move by `d` from coordinate `at` may take on an axis of
/// the given extent: `d` itself while the move stays within `0 .. extent`,
/// and no step at all where it would pass either edge.
pub open spec fn bounded_step(at: int, d: int, extent: int) -> int {
    if 0 <= at + d < extent {
        d
    } else {
        0
    }
}

/// The middle cell of the field.
pub open spec fn center() -> Position {
    Position { x: (FIELD_WIDTH / 2) as i32, y: (FIELD_HEIGHT / 2) as i32 }
}

/// Clamps a distance to a single step in its direction.
pub fn clamp_delta(i: i32) -> (d: i32)
    ensures
        d == sign(i as int),
{
    if i > 0 {
        1
    } else if i < 0 {
        -1
    } else {
        0
    }
}

impl Position {
    /// Whether the cell lies on the field.
    pub open spec fn in_field(self) -> bool {
        0 <= self.x < FIELD_WIDTH && 0 <= self.y < FIELD_HEIGHT
    }

    /// The cell one pursuit step from `self` toward `target`: each axis moves
    /// by the sign of the remaining distance on that axis.
    pub open spec fn step_toward(self, target: Position) -> Position {
        Position {
            x: (self.x + sign(target.x - self.x)) as i32,
            y: (self.y + sign(target.y - self.y)) as i32,
        }
    }

    /// Creates the position with the given coordinates.
    pub fn new(x: i32, y: i32) -> (p: Position)
        ensures
            p == (Position { x, y }),
    {
        Position { x, y }
    }

    /// Returns this position moved by `(dx, dy)`. The receiver is left as it
    /// is, and the result is not confined to the field.
    pub fn clone_add(&self, dx: i32, dy: i32) -> (p: Position)
        requires
            i32::MIN <= self.x + dx <= i32::MAX,
            i32::MIN <= self.y + dy <= i32::MAX,
        ensures
            p.x == self.x + dx,
            p.y == self.y + dy,
    {
        Position::new(self.x + dx, self.y + dy)
    }
}

} // verus!
