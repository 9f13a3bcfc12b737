//! The player: its body as the physics engine sees it, its life and its score.

use vstd::prelude::*;
use crate::config::{HALF_SCREEN_HEIGHT, JUMP_FORCE, TILT_AT_JUMP};
use crate::geometry::Vector2;

verus! {

/// The player's life: 1 while alive, 0 once dead.
#[derive(Clone, Copy, Debug, PartialEq, Eq, Structural)]
pub struct Health {
    pub current: u8,
}

/// The number of pipe pairs that the player has passed.
#[derive(Clone, Copy, Debug, PartialEq, Eq, Structural)]
pub struct Score {
    pub current: u64,
}

/// The one player of the game.
#[derive(Clone, Copy, Debug, PartialEq, Eq, Structural)]
pub struct Player {
    /// The handle under which contact events name the player.
    pub entity: u32,
    pub position: Vector2,
    /// Linear velocity. The game never moves the player sideways.
    pub linvel: Vector2,
    /// Angular velocity.
    pub angvel: i32,
    /// The tilt of the sprite, in milliradians, counter-clockwise.
    pub rotation: i64,
    pub health: Health,
    pub score: Score,
}

/// The tilt, in milliradians, that belongs to the vertical velocity `vy`:
/// `TILT_AT_JUMP` at `JUMP_FORCE` and in proportion elsewhere, rounded toward
/// zero.
pub open spec fn tilt_of(vy: int) -> int {
    if vy >= 0 {
        vy * TILT_AT_JUMP / (JUMP_FORCE as int)
    } else {
        -((-vy) * TILT_AT_JUMP / (JUMP_FORCE as int))
    }
}

impl Player {
    /// The health counter holds one of its two values.
    pub open spec fn wf(self) -> bool {
        self.health.current <= 1
    }

    pub open spec fn is_alive(self) -> bool {
        self.health.current > 0
    }

    /// A jump takes effect only while the player lives and is below the top of
    /// the screen.
    pub open spec fn can_jump(self) -> bool {
        self.is_alive() && self.position.y < HALF_SCREEN_HEIGHT
    }

    /// The player as it enters the game: at rest at the origin, alive, with no
    /// points.
    pub open spec fn spawned(entity: u32) -> Player {
        Player {
            entity,
            position: Vector2::zero(),
            linvel: Vector2::zero(),
            angvel: 0,
            rotation: 0,
            health: Health { current: 1 },
            score: Score { current: 0 },
        }
    }

    /// The player after a jump: the vertical velocity is overwritten, the
    /// horizontal one is kept.
    pub open spec fn jumped(self) -> Player {
        Player { linvel: Vector2 { x: self.linvel.x, y: JUMP_FORCE }, ..self }
    }

    /// The player with its rotation set from its vertical velocity.
    pub open spec fn tilted(self) -> Player {
        Player { rotation: tilt_of(self.linvel.y as int) as i64, ..self }
    }

    /// The player after one tick's worth of input: the jump, if the key went
    /// down and a jump can take effect, then the tilt.
    pub open spec fn reacted(self, jump: bool) -> Player {
        if jump && self.can_jump() {
            self.jumped().tilted()
        } else {
            self.tilted()
        }
    }

    /// The player after a restart: as it entered the game, under the same
    /// handle.
    pub open spec fn reset(self) -> Player {
        Player::spawned(self.entity)
    }

    /// Makes the player as it enters the game.
    pub fn new(entity: u32) -> (player: Player)
        ensures
            player == Player::spawned(entity),
            player.wf(),
            player.is_alive(),
    {
        Player {
            entity,
            position: Vector2 { x: 0, y: 0 },
            linvel: Vector2 { x: 0, y: 0 },
            angvel: 0,
            rotation: 0,
            health: Health { current: 1 },
            score: Score { current: 0 },
        }
    }

    /// Tells whether the player lives.
    pub fn alive(&self) -> (alive: bool)
        ensures
            alive == self.is_alive(),
    {
        self.health.current > 0
    }

    /// Applies the jump impulse if a jump can take effect, and does nothing
    /// otherwise. A dead player is never moved.
    pub fn jump(&mut self)
        ensures
            *final(self) == (if old(self).can_jump() {
                old(self).jumped()
            } else {
                *old(self)
            }),
            !old(self).is_alive() ==> final(self).linvel == old(self).linvel,
    {
        if self.health.current > 0 && self.position.y < HALF_SCREEN_HEIGHT {
            self.linvel.y = JUMP_FORCE;
        }
    }

    /// Sets the rotation from the vertical velocity.
    pub fn tilt(&mut self)
        ensures
            *final(self) == old(self).tilted(),
    {
        let vy: i64 = self.linvel.y as i64;
        if vy >= 0 {
            self.rotation = vy * TILT_AT_JUMP / (JUMP_FORCE as i64);
        } else {
            self.rotation = -((-vy) * TILT_AT_JUMP / (JUMP_FORCE as i64));
        }
    }

    /// One tick's worth of input: jumps if `jump` is set and a jump can take
    /// effect, then tilts.
    pub fn react(&mut self, jump: bool)
        ensures
            *final(self) == old(self).reacted(jump),
            final(self).health == old(self).health,
            final(self).score == old(self).score,
            !old(self).is_alive() ==> final(self).linvel == old(self).linvel,
    {
        if jump {
            self.jump();
        }
        self.tilt();
    }

    /// Puts the player back as it entered the game.
    pub fn respawn(&mut self)
        ensures
            *final(self) == old(self).reset(),
            final(self).wf(),
            final(self).is_alive(),
    {
        self.position = Vector2 { x: 0, y: 0 };
        self.linvel = Vector2 { x: 0, y: 0 };
        self.angvel = 0;
        self.rotation = 0;
        self.health = Health { current: 1 };
        self.score = Score { current: 0 };
    }
}

} // verus!
