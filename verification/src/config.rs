//! The fixed geometry and tuning of the game, in world units.

use vstd::prelude::*;

verus! {

/// Logical width of the window.
pub const SCREEN_WIDTH: i32 = 400;

/// Logical height of the window.
pub const SCREEN_HEIGHT: i32 = 600;

/// Half of `SCREEN_WIDTH`: the x of the right edge, the origin being the centre.
pub const HALF_SCREEN_WIDTH: i32 = 200;

/// Half of `SCREEN_HEIGHT`: the y of the top edge.
pub const HALF_SCREEN_HEIGHT: i32 = 300;

/// Number of pipes; every two of them form one pair.
pub const PIPES_COUNT: usize = 8;

/// Height of the free gap between the two pipes of a pair.
pub const VERTICAL_SPACE_BETWEEN_PIPES: i32 = 120;

/// Horizontal velocity of every pipe; negative, so pipes scroll leftward.
pub const PIPE_SPEED: i32 = -120;

/// Vertical velocity that a jump gives the player.
pub const JUMP_FORCE: i32 = 300;

/// Width of a pipe.
pub const PIPE_WIDTH: i32 = 50;

/// Height of a pipe.
pub const PIPE_HEIGHT: i32 = 320;

/// Horizontal distance between two neighbouring pipe slots.
pub const PIPE_SPACING: i32 = 70;

/// A pipe whose x is at or left of this is off screen and due for recycling:
/// the left edge of the screen minus twice the pipe's width.
pub const RECYCLE_X: i32 = -HALF_SCREEN_WIDTH - PIPE_WIDTH * 2;

/// Where a recycled pipe reappears: one slot beyond the right edge.
pub const SPAWN_X: i32 = HALF_SCREEN_WIDTH + PIPE_SPACING;

/// Lowest y that the lower pipe of a pair can be given.
pub const GAP_OFFSET_MIN: i32 = -HALF_SCREEN_HEIGHT;

/// First y above the range of the lower pipe.
pub const GAP_OFFSET_END: i32 = -180;

/// Vertical distance from the lower pipe of a pair to the upper one: the
/// pipe's height plus the free gap.
pub const PAIR_OFFSET: i32 = PIPE_HEIGHT + VERTICAL_SPACE_BETWEEN_PIPES;

/// Rotation of the player, in milliradians, while it moves at `JUMP_FORCE`.
pub const TILT_AT_JUMP: i64 = 500;

/// Half the width of the scoring sensor behind each upper pipe.
pub const SENSOR_HALF_WIDTH: i32 = 10;

/// Half the height of the scoring sensor.
pub const SENSOR_HALF_HEIGHT: i32 = SCREEN_HEIGHT * 2;

/// Horizontal offset of the scoring sensor from its upper pipe.
pub const SENSOR_OFFSET_X: i32 = 50;

} // verus!
