//! The one source of chance: where the gap of a pipe pair lies.

use vstd::prelude::*;
use crate::config::{GAP_OFFSET_END, GAP_OFFSET_MIN};

verus! {

/// Whether `y` can be the y of a lower pipe.
pub open spec fn valid_gap_offset(y: int) -> bool {
    GAP_OFFSET_MIN <= y < GAP_OFFSET_END
}

/// Calls `fastrand::i32` on the half-open range `low..high`, which draws from
/// the thread-local generator. Trusted: the result lies in the range. The call
/// panics on an empty range, which the precondition rules out. Which value is
/// drawn is left open.
#[verifier::external_body]
fn random_i32(low: i32, high: i32) -> (r: i32)
    requires
        low < high,
    ensures
        low <= r < high,
{
    fastrand::i32(low..high)
}

/// Draws the y of a lower pipe from the valid offsets. Nothing is promised
/// of how the draws are spread.
pub fn draw_gap_offset() -> (y: i32)
    ensures
        valid_gap_offset(y as int),
{
    random_i32(GAP_OFFSET_MIN, GAP_OFFSET_END)
}

} // verus!
