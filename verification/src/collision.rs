//! The classifier for what the physics engine reports: which contacts kill the
//! player and which ones score.

use vstd::prelude::*;
use crate::player::{Health, Player, Score};

verus! {

/// Two bodies that touch or overlap.
#[derive(Clone, Copy, Debug, PartialEq, Eq, Structural)]
pub struct Contact {
    /// Handle of one body.
    pub first: u32,
    /// Handle of the other body.
    pub second: u32,
    /// Whether one of the two is a sensor, so that they overlap without
    /// touching.
    pub sensor: bool,
}

/// One report of the physics engine.
#[derive(Clone, Copy, Debug, PartialEq, Eq, Structural)]
pub enum CollisionEvent {
    /// The two bodies have begun to touch or overlap.
    Started(Contact),
    /// The two bodies have ceased to touch or overlap.
    Stopped(Contact),
}

/// What an event means for the player.
#[derive(Clone, Copy, Debug, PartialEq, Eq, Structural)]
pub enum Verdict {
    /// The event does not concern the player, or reports an end.
    Ignored,
    /// The player has entered the sensor behind a pair of pipes.
    ScoringPass,
    /// The player has hit something solid.
    LethalHit,
}

impl Contact {
    /// Whether `entity` is one of the two bodies.
    pub open spec fn involves(self, entity: u32) -> bool {
        self.first == entity || self.second == entity
    }
}

/// The verdict on one event for the player with handle `player`. Only a
/// beginning contact that involves the player counts: with a sensor it scores,
/// with anything else it kills.
pub open spec fn verdict_of(event: CollisionEvent, player: u32) -> Verdict {
    match event {
        CollisionEvent::Started(contact) => if !contact.involves(player) {
            Verdict::Ignored
        } else if contact.sensor {
            Verdict::ScoringPass
        } else {
            Verdict::LethalHit
        },
        CollisionEvent::Stopped(_) => Verdict::Ignored,
    }
}

/// How many of `events` are scoring passes of `player`.
pub open spec fn scoring_passes(events: Seq<CollisionEvent>, player: u32) -> nat
    decreases events.len(),
{
    if events.len() == 0 {
        0
    } else {
        let rest = scoring_passes(events.drop_last(), player);
        if verdict_of(events.last(), player) == Verdict::ScoringPass {
            rest + 1
        } else {
            rest
        }
    }
}

/// Whether any of `events` is a lethal hit on `player`.
pub open spec fn lethal_hit(events: Seq<CollisionEvent>, player: u32) -> bool {
    exists|i: int| 0 <= i < events.len() && #[trigger] verdict_of(events[i], player) == Verdict::LethalHit
}

/// The player once `events` have been taken in: every scoring pass adds a
/// point, and one lethal hit is enough to kill. Nothing else changes.
pub open spec fn after_collisions(player: Player, events: Seq<CollisionEvent>) -> Player {
    Player {
        health: if lethal_hit(events, player.entity) {
            Health { current: 0 }
        } else {
            player.health
        },
        score: Score {
            current: (player.score.current + scoring_passes(events, player.entity)) as u64,
        },
        ..player
    }
}

/// A prefix of the events holds no more scoring passes than all of them, and
/// there are no more scoring passes than events.
pub proof fn lemma_scoring_passes_prefix(events: Seq<CollisionEvent>, player: u32, n: int)
    requires
        0 <= n <= events.len(),
    ensures
        scoring_passes(events.take(n), player) <= scoring_passes(events, player),
        scoring_passes(events, player) <= events.len(),
    decreases events.len(),
{
    if events.len() == 0 {
        assert(events.take(n) =~= events);
    } else if n == events.len() {
        assert(events.take(n) =~= events);
        lemma_scoring_passes_prefix(events.drop_last(), player, n - 1);
    } else {
        assert(events.drop_last().take(n) =~= events.take(n));
        lemma_scoring_passes_prefix(events.drop_last(), player, n);
    }
}

/// What the event at index `i` adds to the events before it: one scoring pass
/// if it is one, and a lethal hit if it is one.
proof fn lemma_next_event(events: Seq<CollisionEvent>, player: u32, i: int)
    requires
        0 <= i < events.len(),
    ensures
        scoring_passes(events.take(i + 1), player) == scoring_passes(events.take(i), player)
            + (if verdict_of(events[i], player) == Verdict::ScoringPass { 1nat } else { 0nat }),
        lethal_hit(events.take(i + 1), player) == (lethal_hit(events.take(i), player)
            || verdict_of(events[i], player) == Verdict::LethalHit),
{
    let seen = events.take(i);
    let next = events.take(i + 1);
    assert(next.drop_last() =~= seen);
    if lethal_hit(seen, player) {
        let k = choose|k: int|
            0 <= k < seen.len() && #[trigger] verdict_of(seen[k], player) == Verdict::LethalHit;
        assert(verdict_of(next[k], player) == Verdict::LethalHit);
    }
    if verdict_of(events[i], player) == Verdict::LethalHit {
        assert(verdict_of(next[i], player) == Verdict::LethalHit);
    }
    if lethal_hit(next, player) {
        let k = choose|k: int|
            0 <= k < next.len() && #[trigger] verdict_of(next[k], player) == Verdict::LethalHit;
        if k < i {
            assert(verdict_of(seen[k], player) == Verdict::LethalHit);
        }
    }
}

/// Classifies one event.
pub fn classify(event: &CollisionEvent, player: u32) -> (verdict: Verdict)
    ensures
        verdict == verdict_of(*event, player),
{
    match event {
        CollisionEvent::Started(contact) => {
            if contact.first == player || contact.second == player {
                if contact.sensor {
                    Verdict::ScoringPass
                } else {
                    Verdict::LethalHit
                }
            } else {
                Verdict::Ignored
            }
        },
        CollisionEvent::Stopped(_) => Verdict::Ignored,
    }
}

/// Tells whether the player's score has room for the points that `events`
/// bring, which is what taking them in asks for.
pub fn score_has_room(events: &Vec<CollisionEvent>, player: &Player) -> (room: bool)
    ensures
        room == (player.score.current + scoring_passes(events@, player.entity) <= u64::MAX),
{
    let mut left: u64 = u64::MAX - player.score.current;
    let mut i: usize = 0;
    while i < events.len()
        invariant
            i <= events.len(),
            left + scoring_passes(events@.take(i as int), player.entity) == u64::MAX
                - player.score.current,
        decreases events.len() - i,
    {
        proof {
            lemma_next_event(events@, player.entity, i as int);
            lemma_scoring_passes_prefix(events@, player.entity, i + 1);
        }
        match classify(&events[i], player.entity) {
            Verdict::ScoringPass => {
                if left == 0 {
                    return false;
                }
                left = left - 1;
            },
            _ => {},
        }
        i += 1;
    }
    assert(events@.take(i as int) =~= events@);
    true
}

/// Takes in the events of one tick, each on its own: a scoring pass adds a
/// point and leaves the health alone, a lethal hit sets the health to 0 and
/// leaves the score alone. The score must have room for the points.
pub fn handle_collision_events(events: &Vec<CollisionEvent>, player: &mut Player)
    requires
        old(player).score.current + scoring_passes(events@, old(player).entity) <= u64::MAX,
    ensures
        *final(player) == after_collisions(*old(player), events@),
        final(player).score.current >= old(player).score.current,
        !old(player).is_alive() ==> !final(player).is_alive(),
        old(player).wf() ==> final(player).wf(),
{
    let entity = player.entity;
    let mut i: usize = 0;
    while i < events.len()
        invariant
            i <= events.len(),
            entity == old(player).entity,
            old(player).score.current + scoring_passes(events@, entity) <= u64::MAX,
            *player == after_collisions(*old(player), events@.take(i as int)),
        decreases events.len() - i,
    {
        proof {
            lemma_next_event(events@, entity, i as int);
            lemma_scoring_passes_prefix(events@, entity, i + 1);
        }
        match classify(&events[i], entity) {
            Verdict::ScoringPass => {
                player.score.current = player.score.current + 1;
            },
            Verdict::LethalHit => {
                player.health.current = 0;
            },
            Verdict::Ignored => {},
        }
        i += 1;
    }
    assert(events@.take(i as int) =~= events@);
}

} // verus!
