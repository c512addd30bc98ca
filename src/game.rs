use vstd::prelude::*;
use crate::field::Direction;

verus! {

/// Slowest frame interval, in milliseconds.
pub const START_DELAY_MS: u64 = 200;

/// Fastest frame interval, in milliseconds.
pub const MIN_DELAY_MS: u64 = 150;

/// The direction of a tick: what was read, or else the last one read.
pub fn resolve_direction(last: Option<Direction>, read: Option<Direction>) -> (r: Option<
    Direction,
>)
    ensures
        r == if read is Some {
            read
        } else {
            last
        },
{
    if read.is_some() {
        read
    } else {
        last
    }
}

/// A tick ends the game when a direction was given and the snake did not move.
pub fn ends_game(moved: bool, dir: Option<Direction>) -> (r: bool)
    ensures
        r == (!moved && dir is Some),
{
    !moved && dir.is_some()
}

/// The frame interval for a score: two milliseconds less per point, never
/// below the fastest interval.
pub fn frame_delay_ms(score: u32) -> (r: u64)
    ensures
        r == if START_DELAY_MS - 2 * score < MIN_DELAY_MS {
            MIN_DELAY_MS as int
        } else {
            START_DELAY_MS - 2 * score
        },
{
    if score >= 25 {
        MIN_DELAY_MS
    } else {
        START_DELAY_MS - 2 * score as u64
    }
}

} // verus!
