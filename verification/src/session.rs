//! The whole game state and the session around it: the start, the freeze on
//! death, the restart, and the order of one tick.

use vstd::prelude::*;
use crate::collision::{
    after_collisions,
    handle_collision_events,
    score_has_room,
    scoring_passes,
    CollisionEvent,
};
use crate::config::PIPES_COUNT;
use crate::pipe::Pipe;
use crate::player::Player;
use crate::random::{draw_gap_offset, valid_gap_offset};
use crate::recycler::{
    check_pairs,
    pair_at,
    pairs_aligned,
    process_pipes,
    recycle_pass,
    restore_pipes,
    restored,
};

verus! {

/// Everything that the game keeps between two ticks.
#[derive(Clone, Debug)]
pub struct World {
    pub player: Player,
    /// The pipes, each lower pipe followed by the upper pipe of its pair.
    pub pipes: Vec<Pipe>,
    /// Whether the physics engine is to step. While this is off the session is
    /// frozen: nothing moves, and everything stays where it was.
    pub physics_pipeline_active: bool,
}

/// The game state as a mathematical value.
pub struct WorldView {
    pub player: Player,
    pub pipes: Seq<Pipe>,
    pub physics_pipeline_active: bool,
}

impl View for World {
    type V = WorldView;

    open spec fn view(&self) -> WorldView {
        WorldView {
            player: self.player,
            pipes: self.pipes@,
            physics_pipeline_active: self.physics_pipeline_active,
        }
    }
}

/// The pipe at index `n` is as it enters the game: in its slot, a lower pipe
/// at a valid offset, an upper pipe placed from the lower pipe before it.
pub open spec fn initial_at(pipes: Seq<Pipe>, n: int) -> bool {
    let lower = n - n % 2;
    &&& valid_gap_offset(pipes[lower].position.y as int)
    &&& pipes[n] == Pipe::initial(n, pipes[lower].position.y)
}

/// `pipes` is a possible first set of pipes. Only the drawn offsets are left
/// open.
pub open spec fn initial_pipes(pipes: Seq<Pipe>) -> bool {
    &&& pipes.len() == PIPES_COUNT
    &&& forall|n: int| 0 <= n < pipes.len() ==> #[trigger] initial_at(pipes, n)
}

impl WorldView {
    /// The player's health is 0 or 1, and the pipes come in aligned pairs.
    pub open spec fn wf(self) -> bool {
        self.player.wf() && pairs_aligned(self.pipes)
    }

    /// The state after a restart: the player as it entered the game, every
    /// pipe back at the x where it was spawned with its y untouched, and the
    /// physics engine stepping.
    pub open spec fn restarted(self) -> WorldView {
        WorldView {
            player: self.player.reset(),
            pipes: restored(self.pipes),
            physics_pipeline_active: true,
        }
    }

    /// The state after the session controller has looked at the player: a
    /// dead player freezes the session.
    pub open spec fn health_checked(self) -> WorldView {
        WorldView {
            physics_pipeline_active: self.player.is_alive() && self.physics_pipeline_active,
            ..self
        }
    }

    /// The state after the keys of one tick have been served: the player
    /// reacts to the jump key, then the restart key, if it went down, restarts
    /// the game.
    pub open spec fn after_input(self, jump: bool, restart: bool) -> WorldView {
        let reacted = WorldView { player: self.player.reacted(jump), ..self };
        if restart {
            reacted.restarted()
        } else {
            reacted
        }
    }
}

/// A tick can take in `events` only if the score has room for their points.
pub open spec fn tick_enabled(before: WorldView, events: Seq<CollisionEvent>) -> bool {
    before.player.score.current + scoring_passes(events, before.player.entity) <= u64::MAX
}

/// The state that one tick leaves, given the pipes as they left the recycling
/// pass. In order: the events of the physics step are taken in, the player
/// reacts to the jump key, the pipes are recycled, and the session controller
/// restarts the game if the restart key went down and freezes it if the
/// player is dead.
pub open spec fn ticked(
    before: WorldView,
    jump: bool,
    restart: bool,
    events: Seq<CollisionEvent>,
    recycled: Seq<Pipe>,
) -> WorldView {
    let played = WorldView {
        player: after_collisions(before.player, events).reacted(jump),
        pipes: recycled,
        ..before
    };
    if restart {
        played.restarted().health_checked()
    } else {
        played.health_checked()
    }
}

/// `after` is a possible outcome of one tick from `before`. Only the offsets
/// drawn for recycled pipes are left open.
pub open spec fn tick_outcome(
    before: WorldView,
    jump: bool,
    restart: bool,
    events: Seq<CollisionEvent>,
    after: WorldView,
) -> bool {
    exists|recycled: Seq<Pipe>| #[trigger]
        recycle_pass(before.pipes, recycled)
            && after == ticked(before, jump, restart, events, recycled)
}

/// Starts a session for the player with handle `entity`: the player at rest
/// at the origin, the pipes in their slots with freshly drawn gaps, and the
/// physics engine stepping.
pub fn setup(entity: u32) -> (world: World)
    ensures
        world@.player == Player::spawned(entity),
        world@.physics_pipeline_active,
        initial_pipes(world@.pipes),
        world@.wf(),
{
    let mut pipes: Vec<Pipe> = Vec::new();
    let mut y_offset: i32 = 0;
    let mut n: usize = 0;
    while n < PIPES_COUNT
        invariant
            n <= PIPES_COUNT,
            pipes.len() == n,
            n % 2 == 1 ==> y_offset == pipes@[n - 1].position.y,
            n % 2 == 1 ==> valid_gap_offset(y_offset as int),
            forall|k: int| 0 <= k < n ==> #[trigger] initial_at(pipes@, k),
        decreases PIPES_COUNT - n,
    {
        let ghost prior = pipes@;
        if n % 2 == 0 {
            y_offset = draw_gap_offset();
        }
        pipes.push(Pipe::spawn(n, y_offset));
        proof {
            assert forall|k: int| 0 <= k < n + 1 implies #[trigger] initial_at(pipes@, k) by {
                if k < n {
                    assert(initial_at(prior, k));
                }
            }
        }
        n += 1;
    }
    let world = World { player: Player::new(entity), pipes, physics_pipeline_active: true };
    proof {
        let spawned = world@.pipes;
        assert forall|i: int| 0 <= i < spawned.len() && i % 2 == 0 implies #[trigger] pair_at(
            spawned,
            i,
        ) by {
            assert(initial_at(spawned, i));
            assert(initial_at(spawned, i + 1));
        }
    }
    world
}

/// Tells whether the state is well formed. A host that writes positions into
/// the state can call this to find out, before the next tick, that a pair has
/// lost its partner or drifted apart.
pub fn check_world(world: &World) -> (ok: bool)
    ensures
        ok == world@.wf(),
{
    world.player.health.current <= 1 && check_pairs(&world.pipes)
}

/// Tells whether a tick can take in `events`: whether the score has room for
/// their points.
pub fn can_tick(world: &World, events: &Vec<CollisionEvent>) -> (enabled: bool)
    ensures
        enabled == tick_enabled(world@, events@),
{
    score_has_room(events, &world.player)
}

/// Restarts the game, whether or not the player is dead.
pub fn restart(world: &mut World)
    ensures
        final(world)@ == old(world)@.restarted(),
        old(world)@.wf() ==> final(world)@.wf(),
{
    restore_pipes(&mut world.pipes);
    world.player.respawn();
    world.physics_pipeline_active = true;
}

/// Serves the keys of one tick. The two flags tell whether the key went down
/// in this tick; a key that is held does not count again.
pub fn process_player_input(jump_pressed: bool, restart_pressed: bool, world: &mut World)
    ensures
        final(world)@ == old(world)@.after_input(jump_pressed, restart_pressed),
        old(world)@.wf() ==> final(world)@.wf(),
{
    world.player.react(jump_pressed);
    if restart_pressed {
        restart(world);
    }
}

/// Freezes the session once the player is dead, and leaves it alone otherwise.
pub fn check_player_health(player: &Player, physics_pipeline_active: &mut bool)
    ensures
        *final(physics_pipeline_active) == (player.is_alive() && *old(physics_pipeline_active)),
{
    if player.health.current <= 0 {
        *physics_pipeline_active = false;
    }
}

/// Runs the game logic of one tick, after the physics engine has stepped and
/// reported `events`. The two flags tell whether the key went down in this
/// tick. The score must have room for the points of this tick.
pub fn tick(
    world: &mut World,
    jump_pressed: bool,
    restart_pressed: bool,
    events: &Vec<CollisionEvent>,
)
    requires
        tick_enabled(old(world)@, events@),
    ensures
        tick_outcome(old(world)@, jump_pressed, restart_pressed, events@, final(world)@),
        old(world)@.wf() ==> final(world)@.wf(),
        final(world)@.player.score.current == (if restart_pressed {
            0
        } else {
            old(world)@.player.score.current
                + scoring_passes(events@, old(world)@.player.entity)
        }),
        !restart_pressed && !old(world)@.player.is_alive() ==> !final(world)@.player.is_alive()
            && final(world)@.player.linvel == old(world)@.player.linvel,
        restart_pressed ==> final(world)@.player.is_alive(),
        !final(world)@.player.is_alive() ==> !final(world)@.physics_pipeline_active,
        !restart_pressed && !old(world)@.physics_pipeline_active
            ==> !final(world)@.physics_pipeline_active,
        !restart_pressed ==> forall|i: int|
            0 <= i < final(world)@.pipes.len() ==> !(#[trigger] final(world)@.pipes[i]).is_due(),
{
    handle_collision_events(events, &mut world.player);
    world.player.react(jump_pressed);
    process_pipes(&mut world.pipes);
    let ghost recycled = world.pipes@;
    if restart_pressed {
        restart(world);
    }
    check_player_health(&world.player, &mut world.physics_pipeline_active);
    proof {
        assert(recycle_pass(old(world)@.pipes, recycled));
        assert(world@ == ticked(old(world)@, jump_pressed, restart_pressed, events@, recycled));
    }
}

} // verus!
