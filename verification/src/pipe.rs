//! One pipe: where it is, where it started, and how it is recycled.

use vstd::prelude::*;
use crate::config::{HALF_SCREEN_WIDTH, PAIR_OFFSET, PIPE_SPACING, RECYCLE_X, SPAWN_X};
use crate::geometry::Vector2;

verus! {

/// Which member of a pair a pipe is.
#[derive(Clone, Copy, Debug, PartialEq, Eq, Structural)]
pub enum PipeType {
    /// The upper pipe, which hangs from the top and carries the scoring sensor.
    UP,
    /// The lower pipe, which stands on the ground.
    DOWN,
}

/// A pipe. Its velocity and its collider are the same for all pipes and are
/// constants of `config`.
#[derive(Clone, Copy, Debug, PartialEq, Eq, Structural)]
pub struct Pipe {
    pub pipe_type: PipeType,
    /// The x at which the pipe was spawned; a restart brings it back there.
    pub original_x: i32,
    pub position: Vector2,
}

/// The x of the slot that the `n`-th pipe is spawned in. Pipes are spawned in
/// pairs, the lower one first, and both pipes of a pair share a slot.
pub open spec fn slot_x(n: int) -> int {
    HALF_SCREEN_WIDTH + (n - n % 2) * PIPE_SPACING
}

impl Pipe {
    /// The `n`-th pipe as it enters the game, where `y_offset` is the y of the
    /// lower pipe of its pair. Pipes with an even `n` are lower pipes; the
    /// upper pipe that follows each stands `PAIR_OFFSET` above it.
    pub open spec fn initial(n: int, y_offset: i32) -> Pipe {
        if n % 2 == 0 {
            Pipe {
                pipe_type: PipeType::DOWN,
                original_x: slot_x(n) as i32,
                position: Vector2 { x: slot_x(n) as i32, y: y_offset },
            }
        } else {
            Pipe {
                pipe_type: PipeType::UP,
                original_x: slot_x(n) as i32,
                position: Vector2 { x: slot_x(n) as i32, y: (y_offset + PAIR_OFFSET) as i32 },
            }
        }
    }

    /// Whether the pipe has scrolled past the left threshold.
    pub open spec fn is_due(self) -> bool {
        self.position.x <= RECYCLE_X
    }

    /// The pipe after recycling. `offset` is the y drawn for the lower pipe of
    /// the pair during this pass, if one was drawn. A lower pipe takes it as
    /// its y; an upper pipe is placed `PAIR_OFFSET` above it, and keeps its y
    /// when nothing was drawn. Either way the pipe moves to `SPAWN_X`.
    pub open spec fn recycled(self, offset: Option<i32>) -> Pipe {
        let y = match (self.pipe_type, offset) {
            (PipeType::DOWN, Some(o)) => o,
            (PipeType::UP, Some(o)) => (o + PAIR_OFFSET) as i32,
            (_, None) => self.position.y,
        };
        Pipe { position: Vector2 { x: SPAWN_X, y }, ..self }
    }

    /// The pipe back at the x where it was spawned, its y untouched.
    pub open spec fn restored(self) -> Pipe {
        Pipe { position: Vector2 { x: self.original_x, y: self.position.y }, ..self }
    }

    /// Makes the `n`-th pipe, given the y of the lower pipe of its pair. The
    /// coordinates must fit the machine's integers.
    pub fn spawn(n: usize, y_offset: i32) -> (pipe: Pipe)
        requires
            slot_x(n as int) <= i32::MAX,
            n % 2 == 1 ==> y_offset + PAIR_OFFSET <= i32::MAX,
        ensures
            pipe == Pipe::initial(n as int, y_offset),
    {
        if n % 2 == 0 {
            let x: i32 = HALF_SCREEN_WIDTH + (n as i32) * PIPE_SPACING;
            Pipe { pipe_type: PipeType::DOWN, original_x: x, position: Vector2 { x, y: y_offset } }
        } else {
            let x: i32 = HALF_SCREEN_WIDTH + ((n - 1) as i32) * PIPE_SPACING;
            Pipe {
                pipe_type: PipeType::UP,
                original_x: x,
                position: Vector2 { x, y: y_offset + PAIR_OFFSET },
            }
        }
    }

    /// Tells whether the pipe has scrolled past the left threshold.
    pub fn needs_recycle(&self) -> (due: bool)
        ensures
            due == self.is_due(),
    {
        self.position.x <= RECYCLE_X
    }

    /// Moves the pipe to the spawn edge and sets its y from `offset`. The y of
    /// an upper pipe must fit the machine's integers.
    pub fn recycle(&mut self, offset: Option<i32>)
        requires
            old(self).pipe_type == PipeType::UP ==> (offset matches Some(o) ==> o + PAIR_OFFSET
                <= i32::MAX),
        ensures
            *final(self) == old(self).recycled(offset),
    {
        match offset {
            Some(o) => {
                match self.pipe_type {
                    PipeType::DOWN => {
                        self.position.y = o;
                    },
                    PipeType::UP => {
                        self.position.y = o + PAIR_OFFSET;
                    },
                }
            },
            None => {},
        }
        self.position.x = SPAWN_X;
    }

    /// Moves the pipe back to the x where it was spawned.
    pub fn restore(&mut self)
        ensures
            *final(self) == old(self).restored(),
    {
        self.position.x = self.original_x;
    }
}

} // verus!
