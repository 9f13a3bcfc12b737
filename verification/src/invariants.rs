//! What holds over whole runs of the game: the score never falls without a
//! restart, death lasts until a restart, and the pairs of pipes keep their
//! gaps.
//!
//! A run alternates the tick of this crate with the step of the physics
//! engine. What the theorems assume of the engine is stated in
//! `physics_step`.

use vstd::prelude::*;
use crate::collision::{lethal_hit, scoring_passes, CollisionEvent};
use crate::config::RECYCLE_X;
use crate::pipe::Pipe;
use crate::player::Player;
use crate::recycler::{
    lemma_recycle_clears_threshold,
    lemma_recycle_keeps_alignment,
    lemma_recycle_nothing_due,
    lemma_restore_idempotent,
    lemma_restore_keeps_alignment,
    pairs_aligned,
    recycle_pass,
};
use crate::session::{tick_enabled, tick_outcome, ticked, WorldView};

verus! {

/// What reaches the game logic in one frame.
pub struct Frame {
    /// Whether the jump key went down.
    pub jump: bool,
    /// Whether the restart key went down.
    pub restart: bool,
    /// What the physics engine reported since the last tick.
    pub events: Seq<CollisionEvent>,
}

/// What the physics engine may do between two ticks. While the session is
/// frozen it does nothing. Otherwise it moves bodies: it never touches the
/// switch, the player's handle, health or score, nor the number of pipes, and
/// it moves the two pipes of a pair alike, so that aligned pairs stay aligned.
pub open spec fn physics_step(before: WorldView, after: WorldView) -> bool {
    &&& !before.physics_pipeline_active ==> after == before
    &&& after.physics_pipeline_active == before.physics_pipeline_active
    &&& after.player.entity == before.player.entity
    &&& after.player.health == before.player.health
    &&& after.player.score == before.player.score
    &&& after.pipes.len() == before.pipes.len()
    &&& pairs_aligned(before.pipes) ==> pairs_aligned(after.pipes)
}

/// `after` is a possible state one frame after `before`: a tick on the
/// frame's input, then a step of the physics engine.
pub open spec fn frame_outcome(before: WorldView, frame: Frame, after: WorldView) -> bool {
    &&& tick_enabled(before, frame.events)
    &&& exists|mid: WorldView| #[trigger]
        tick_outcome(before, frame.jump, frame.restart, frame.events, mid)
            && physics_step(mid, after)
}

/// Frame `i` of a run leads from state `i` to state `i + 1`.
pub open spec fn frame_at(states: Seq<WorldView>, frames: Seq<Frame>, i: int) -> bool {
    frame_outcome(states[i], frames[i], states[i + 1])
}

/// `states` is a run of the game under `frames`.
pub open spec fn is_run(states: Seq<WorldView>, frames: Seq<Frame>) -> bool {
    &&& states.len() == frames.len() + 1
    &&& forall|i: int| 0 <= i < frames.len() ==> #[trigger] frame_at(states, frames, i)
}

/// No frame from `from` up to `to` brings a restart.
pub open spec fn no_restart(frames: Seq<Frame>, from: int, to: int) -> bool {
    forall|i: int| from <= i < to ==> !(#[trigger] frames[i]).restart
}

/// What one tick does to the player's score and life and to the switch: a
/// restart sets the score to 0 and revives the player; without one the score
/// grows by the scoring passes among the events, the player is alive iff it
/// was alive and no event was a lethal hit, and a dead player keeps its
/// velocity. A dead player leaves the session frozen. A well-formed state
/// stays well formed.
pub proof fn lemma_tick(
    before: WorldView,
    jump: bool,
    restart: bool,
    events: Seq<CollisionEvent>,
    after: WorldView,
)
    requires
        tick_enabled(before, events),
        tick_outcome(before, jump, restart, events, after),
    ensures
        after.player.entity == before.player.entity,
        restart ==> after.player.score.current == 0 && after.player.is_alive()
            && after.physics_pipeline_active,
        !restart ==> after.player.score.current == before.player.score.current
            + scoring_passes(events, before.player.entity),
        !restart ==> after.player.is_alive() == (before.player.is_alive()
            && !lethal_hit(events, before.player.entity)),
        !restart ==> after.physics_pipeline_active == (after.player.is_alive()
            && before.physics_pipeline_active),
        !restart && !before.player.is_alive() ==> after.player.linvel == before.player.linvel,
        before.wf() ==> after.wf(),
{
    let recycled = choose|recycled: Seq<Pipe>| #[trigger]
        recycle_pass(before.pipes, recycled)
            && after == ticked(before, jump, restart, events, recycled);
    if before.wf() {
        lemma_recycle_keeps_alignment(before.pipes, recycled);
        lemma_restore_keeps_alignment(recycled);
    }
}

/// Restarting twice in a row gives the state that restarting once gives: the
/// player at rest at the origin, alive, with no points, every pipe at the x
/// where it was spawned, and the physics engine stepping.
pub proof fn theorem_restart_idempotent(world: WorldView)
    ensures
        world.restarted().restarted() == world.restarted(),
        world.restarted().player == Player::spawned(world.player.entity),
        world.restarted().physics_pipeline_active,
        world.restarted().pipes.len() == world.pipes.len(),
        forall|i: int|
            0 <= i < world.pipes.len() ==> (#[trigger] world.restarted().pipes[i]).position.x
                == world.pipes[i].original_x,
{
    lemma_restore_idempotent(world.pipes);
}

/// Serving the restart key in two ticks in a row, with no jump in the second,
/// gives the state that serving it once gives.
pub proof fn theorem_restart_key_idempotent(world: WorldView, jump: bool)
    ensures
        world.after_input(jump, true).after_input(false, true) == world.after_input(jump, true),
{
    lemma_restore_idempotent(world.pipes);
}

/// A tick that serves the restart key, followed by a tick that serves it
/// again with no jump and no events, leaves the state that the first tick
/// left, provided that no pipe was spawned at or behind the threshold.
pub proof fn theorem_restart_tick_idempotent(
    before: WorldView,
    jump: bool,
    events: Seq<CollisionEvent>,
    once: WorldView,
    twice: WorldView,
)
    requires
        forall|i: int|
            0 <= i < before.pipes.len() ==> (#[trigger] before.pipes[i]).original_x > RECYCLE_X,
        tick_outcome(before, jump, true, events, once),
        tick_outcome(once, false, true, Seq::empty(), twice),
    ensures
        twice == once,
{
    let first = choose|recycled: Seq<Pipe>| #[trigger]
        recycle_pass(before.pipes, recycled) && once == ticked(before, jump, true, events, recycled);
    let second = choose|recycled: Seq<Pipe>| #[trigger]
        recycle_pass(once.pipes, recycled)
            && twice == ticked(once, false, true, Seq::empty(), recycled);
    assert forall|i: int| 0 <= i < once.pipes.len() implies !(#[trigger] once.pipes[i]).is_due() by {
        lemma_recycle_clears_threshold(before.pipes, first, i);
    }
    lemma_recycle_nothing_due(once.pipes, second);
    lemma_restore_idempotent(first);
}

/// Over a stretch of a run without a restart the score does not fall.
pub proof fn theorem_score_never_falls(
    states: Seq<WorldView>,
    frames: Seq<Frame>,
    from: int,
    to: int,
)
    requires
        is_run(states, frames),
        0 <= from <= to <= frames.len(),
        no_restart(frames, from, to),
    ensures
        states[to].player.score.current >= states[from].player.score.current,
    decreases to - from,
{
    if from < to {
        theorem_score_never_falls(states, frames, from, to - 1);
        assert(frame_at(states, frames, to - 1));
        let frame = frames[to - 1];
        let mid = choose|mid: WorldView| #[trigger]
            tick_outcome(states[to - 1], frame.jump, frame.restart, frame.events, mid)
                && physics_step(mid, states[to]);
        lemma_tick(states[to - 1], frame.jump, frame.restart, frame.events, mid);
    }
}

/// A frame in which the score falls brings a restart, and leaves the score at
/// exactly 0.
pub proof fn theorem_score_falls_only_to_zero(
    states: Seq<WorldView>,
    frames: Seq<Frame>,
    i: int,
)
    requires
        is_run(states, frames),
        0 <= i < frames.len(),
        states[i + 1].player.score.current < states[i].player.score.current,
    ensures
        frames[i].restart,
        states[i + 1].player.score.current == 0,
{
    assert(frame_at(states, frames, i));
    let frame = frames[i];
    let mid = choose|mid: WorldView| #[trigger]
        tick_outcome(states[i], frame.jump, frame.restart, frame.events, mid)
            && physics_step(mid, states[i + 1]);
    lemma_tick(states[i], frame.jump, frame.restart, frame.events, mid);
}

/// Once the player is dead it stays dead until a restart, whatever keys go
/// down and whatever the engine reports. After the first such frame the
/// session is frozen, and the player's velocity stays what it was.
pub proof fn theorem_death_is_final(
    states: Seq<WorldView>,
    frames: Seq<Frame>,
    from: int,
    to: int,
)
    requires
        is_run(states, frames),
        0 <= from <= to <= frames.len(),
        no_restart(frames, from, to),
        !states[from].player.is_alive(),
    ensures
        !states[to].player.is_alive(),
        states[to].player.linvel == states[from].player.linvel,
        from < to ==> !states[to].physics_pipeline_active,
    decreases to - from,
{
    if from < to {
        theorem_death_is_final(states, frames, from, to - 1);
        assert(frame_at(states, frames, to - 1));
        let frame = frames[to - 1];
        let mid = choose|mid: WorldView| #[trigger]
            tick_outcome(states[to - 1], frame.jump, frame.restart, frame.events, mid)
                && physics_step(mid, states[to]);
        lemma_tick(states[to - 1], frame.jump, frame.restart, frame.events, mid);
    }
}

/// A run that starts well formed stays well formed: the health is 0 or 1 and
/// every pair of pipes has its gap, in every state.
pub proof fn theorem_run_stays_well_formed(states: Seq<WorldView>, frames: Seq<Frame>, i: int)
    requires
        is_run(states, frames),
        states[0].wf(),
        0 <= i <= frames.len(),
    ensures
        states[i].wf(),
    decreases i,
{
    if i > 0 {
        theorem_run_stays_well_formed(states, frames, i - 1);
        assert(frame_at(states, frames, i - 1));
        let frame = frames[i - 1];
        let mid = choose|mid: WorldView| #[trigger]
            tick_outcome(states[i - 1], frame.jump, frame.restart, frame.events, mid)
                && physics_step(mid, states[i]);
        lemma_tick(states[i - 1], frame.jump, frame.restart, frame.events, mid);
    }
}

} // verus!
