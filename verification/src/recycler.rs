//! The pass over all pipes that moves those that left the screen back to the
//! spawn edge, and the pass that a restart makes.

use vstd::prelude::*;
use crate::config::{PAIR_OFFSET, SPAWN_X};
use crate::pipe::{Pipe, PipeType};
use crate::random::{draw_gap_offset, valid_gap_offset};

verus! {

/// The index of the closest pipe before `i` that was a lower pipe due for
/// recycling: the one whose draw is still in force when the pass reaches `i`.
pub open spec fn last_drawn(before: Seq<Pipe>, i: int) -> Option<int>
    decreases i,
{
    if i <= 0 {
        None
    } else if before[i - 1].is_due() && before[i - 1].pipe_type == PipeType::DOWN {
        Some(i - 1)
    } else {
        last_drawn(before, i - 1)
    }
}

/// The offset that the pass carries when it reaches index `i`: the new y of
/// the lower pipe that `last_drawn` names, if there is one.
pub open spec fn carried_offset(before: Seq<Pipe>, after: Seq<Pipe>, i: int) -> Option<i32> {
    match last_drawn(before, i) {
        Some(j) => Some(after[j].position.y),
        None => None,
    }
}

/// What one pass does to the pipe at index `i`. A pipe that is not due stays
/// as it was. A lower pipe that is due is recycled with a valid offset of its
/// own. An upper pipe that is due is recycled with the offset carried to it.
pub open spec fn recycled_at(before: Seq<Pipe>, after: Seq<Pipe>, i: int) -> bool {
    if !before[i].is_due() {
        after[i] == before[i]
    } else if before[i].pipe_type == PipeType::DOWN {
        &&& valid_gap_offset(after[i].position.y as int)
        &&& after[i] == before[i].recycled(Some(after[i].position.y))
    } else {
        after[i] == before[i].recycled(carried_offset(before, after, i))
    }
}

/// `after` is a possible outcome of one recycling pass over `before`. Only the
/// drawn offsets are left open.
pub open spec fn recycle_pass(before: Seq<Pipe>, after: Seq<Pipe>) -> bool {
    &&& after.len() == before.len()
    &&& forall|i: int| 0 <= i < before.len() ==> #[trigger] recycled_at(before, after, i)
}

/// The pipes at `i` and `i + 1` are the lower and the upper pipe of one pair:
/// spawned in the same slot, still at the same x, and `PAIR_OFFSET` apart.
pub open spec fn pair_at(pipes: Seq<Pipe>, i: int) -> bool {
    &&& pipes[i].pipe_type == PipeType::DOWN
    &&& pipes[i + 1].pipe_type == PipeType::UP
    &&& pipes[i].original_x == pipes[i + 1].original_x
    &&& pipes[i].position.x == pipes[i + 1].position.x
    &&& pipes[i + 1].position.y - pipes[i].position.y == PAIR_OFFSET
}

/// The pipes come in pairs, each lower pipe followed by its upper pipe, and
/// every pair has its gap.
pub open spec fn pairs_aligned(pipes: Seq<Pipe>) -> bool {
    &&& pipes.len() % 2 == 0
    &&& forall|i: int| 0 <= i < pipes.len() && i % 2 == 0 ==> #[trigger] pair_at(pipes, i)
}

/// The pipes of `pipes`, each back at the x where it was spawned.
pub open spec fn restored(pipes: Seq<Pipe>) -> Seq<Pipe> {
    pipes.map_values(|p: Pipe| p.restored())
}

/// The pipe that `last_drawn` names lies before `i` and was a lower pipe due
/// for recycling.
pub proof fn lemma_last_drawn(before: Seq<Pipe>, i: int)
    ensures
        last_drawn(before, i) matches Some(j) ==> 0 <= j < i && before[j].is_due()
            && before[j].pipe_type == PipeType::DOWN,
    decreases i,
{
    if i > 0 && !(before[i - 1].is_due() && before[i - 1].pipe_type == PipeType::DOWN) {
        lemma_last_drawn(before, i - 1);
    }
}

/// The carried offset at `i` depends only on the pipes before `i`.
proof fn lemma_carried_offset_stable(before: Seq<Pipe>, a: Seq<Pipe>, b: Seq<Pipe>, i: int)
    requires
        forall|k: int| 0 <= k < i ==> a[k] == b[k],
    ensures
        carried_offset(before, a, i) == carried_offset(before, b, i),
{
    lemma_last_drawn(before, i);
}

/// A lower pipe and the upper pipe behind it that cross the threshold in the
/// same pass leave it at the spawn edge with the gap between them, whatever
/// was drawn and wherever they stood before.
pub proof fn lemma_recycled_pair_has_gap(before: Seq<Pipe>, after: Seq<Pipe>, i: int)
    requires
        recycle_pass(before, after),
        0 <= i,
        i + 1 < before.len(),
        before[i].pipe_type == PipeType::DOWN,
        before[i + 1].pipe_type == PipeType::UP,
        before[i].is_due(),
        before[i + 1].is_due(),
    ensures
        after[i + 1].position.y - after[i].position.y == PAIR_OFFSET,
        after[i].position.x == SPAWN_X,
        after[i + 1].position.x == SPAWN_X,
        valid_gap_offset(after[i].position.y as int),
{
    assert(recycled_at(before, after, i));
    assert(recycled_at(before, after, i + 1));
}

/// A pass over aligned pairs leaves them aligned: the two pipes of a pair
/// share their x, so they are recycled together or not at all.
pub proof fn lemma_recycle_keeps_alignment(before: Seq<Pipe>, after: Seq<Pipe>)
    requires
        recycle_pass(before, after),
        pairs_aligned(before),
    ensures
        pairs_aligned(after),
{
    assert forall|i: int| 0 <= i < after.len() && i % 2 == 0 implies #[trigger] pair_at(after, i) by {
        assert(pair_at(before, i));
        assert(recycled_at(before, after, i));
        assert(recycled_at(before, after, i + 1));
    }
}

/// No pass leaves a pipe at or behind the threshold, and a pipe moves only if
/// it was there.
pub proof fn lemma_recycle_clears_threshold(before: Seq<Pipe>, after: Seq<Pipe>, i: int)
    requires
        recycle_pass(before, after),
        0 <= i < before.len(),
    ensures
        !after[i].is_due(),
        after[i].position.x == (if before[i].is_due() {
            SPAWN_X
        } else {
            before[i].position.x
        }),
        after[i].pipe_type == before[i].pipe_type,
        after[i].original_x == before[i].original_x,
{
    assert(recycled_at(before, after, i));
}

/// A pass over pipes of which none is due changes nothing.
pub proof fn lemma_recycle_nothing_due(before: Seq<Pipe>, after: Seq<Pipe>)
    requires
        recycle_pass(before, after),
        forall|i: int| 0 <= i < before.len() ==> !(#[trigger] before[i]).is_due(),
    ensures
        after == before,
{
    assert forall|i: int| 0 <= i < before.len() implies after[i] == before[i] by {
        assert(recycled_at(before, after, i));
    }
    assert(after =~= before);
}

/// Restoring aligned pairs leaves them aligned: both pipes of a pair return
/// to the slot that they share.
pub proof fn lemma_restore_keeps_alignment(pipes: Seq<Pipe>)
    requires
        pairs_aligned(pipes),
    ensures
        pairs_aligned(restored(pipes)),
{
    let back = restored(pipes);
    assert forall|i: int| 0 <= i < back.len() && i % 2 == 0 implies #[trigger] pair_at(back, i) by {
        assert(pair_at(pipes, i));
    }
}

/// Restoring twice is restoring once.
pub proof fn lemma_restore_idempotent(pipes: Seq<Pipe>)
    ensures
        restored(restored(pipes)) == restored(pipes),
{
    assert(restored(restored(pipes)) =~= restored(pipes));
}

/// Tells whether the pipes come in aligned pairs.
pub fn check_pairs(pipes: &Vec<Pipe>) -> (aligned: bool)
    ensures
        aligned == pairs_aligned(pipes@),
{
    if pipes.len() % 2 != 0 {
        return false;
    }
    let mut i: usize = 0;
    while i < pipes.len()
        invariant
            i <= pipes.len(),
            i % 2 == 0,
            pipes.len() % 2 == 0,
            forall|j: int| 0 <= j < i && j % 2 == 0 ==> #[trigger] pair_at(pipes@, j),
        decreases pipes.len() - i,
    {
        let lower = pipes[i];
        let upper = pipes[i + 1];
        let gap: i64 = upper.position.y as i64 - lower.position.y as i64;
        let aligned = match (lower.pipe_type, upper.pipe_type) {
            (PipeType::DOWN, PipeType::UP) => {
                lower.original_x == upper.original_x && lower.position.x == upper.position.x
                    && gap == PAIR_OFFSET as i64
            },
            _ => false,
        };
        if !aligned {
            assert(!pair_at(pipes@, i as int));
            return false;
        }
        i += 2;
    }
    true
}

/// Recycles every pipe that has scrolled past the left threshold, in order.
/// Each lower pipe among them draws a fresh offset; each upper pipe among them
/// takes the offset drawn last in this pass, so a pair that crosses the
/// threshold together keeps its gap.
pub fn process_pipes(pipes: &mut Vec<Pipe>)
    ensures
        recycle_pass(old(pipes)@, final(pipes)@),
        forall|i: int|
            0 <= i < old(pipes)@.len() && old(pipes)@[i].is_due()
                ==> (#[trigger] final(pipes)@[i]).position.x == SPAWN_X,
        forall|i: int| 0 <= i < final(pipes)@.len() ==> !(#[trigger] final(pipes)@[i]).is_due(),
        pairs_aligned(old(pipes)@) ==> pairs_aligned(final(pipes)@),
{
    let mut y_offset: Option<i32> = None;
    let mut i: usize = 0;
    while i < pipes.len()
        invariant
            i <= pipes.len(),
            pipes.len() == old(pipes).len(),
            forall|j: int| 0 <= j < i ==> #[trigger] recycled_at(old(pipes)@, pipes@, j),
            forall|j: int| i <= j < pipes.len() ==> pipes@[j] == old(pipes)@[j],
            y_offset == carried_offset(old(pipes)@, pipes@, i as int),
            y_offset matches Some(o) ==> valid_gap_offset(o as int),
        decreases pipes.len() - i,
    {
        let ghost prior = pipes@;
        let mut pipe = pipes[i];
        if pipe.needs_recycle() {
            match pipe.pipe_type {
                PipeType::DOWN => {
                    y_offset = Some(draw_gap_offset());
                },
                PipeType::UP => {},
            }
            pipe.recycle(y_offset);
            pipes.set(i, pipe);
        }
        proof {
            let before = old(pipes)@;
            assert forall|j: int| 0 <= j <= i implies #[trigger] recycled_at(before, pipes@, j) by {
                lemma_carried_offset_stable(before, prior, pipes@, j);
                if j < i {
                    assert(recycled_at(before, prior, j));
                }
            }
            lemma_carried_offset_stable(before, prior, pipes@, i as int);
        }
        i += 1;
    }
    proof {
        let before = old(pipes)@;
        assert forall|k: int| 0 <= k < pipes@.len() implies !(#[trigger] pipes@[k]).is_due()
            && (before[k].is_due() ==> pipes@[k].position.x == SPAWN_X) by {
            lemma_recycle_clears_threshold(before, pipes@, k);
        }
        if pairs_aligned(before) {
            lemma_recycle_keeps_alignment(before, pipes@);
        }
    }
}

/// Moves every pipe back to the x where it was spawned.
pub fn restore_pipes(pipes: &mut Vec<Pipe>)
    ensures
        final(pipes)@ == restored(old(pipes)@),
        pairs_aligned(old(pipes)@) ==> pairs_aligned(final(pipes)@),
{
    let mut i: usize = 0;
    while i < pipes.len()
        invariant
            i <= pipes.len(),
            pipes.len() == old(pipes).len(),
            forall|j: int| 0 <= j < i ==> pipes@[j] == old(pipes)@[j].restored(),
            forall|j: int| i <= j < pipes.len() ==> pipes@[j] == old(pipes)@[j],
        decreases pipes.len() - i,
    {
        let mut pipe = pipes[i];
        pipe.restore();
        pipes.set(i, pipe);
        i += 1;
    }
    proof {
        assert(pipes@ =~= restored(old(pipes)@));
        if pairs_aligned(old(pipes)@) {
            lemma_restore_keeps_alignment(old(pipes)@);
        }
    }
}

} // verus!
