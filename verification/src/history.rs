//! How much history is asked for.
use vstd::prelude::*;
use crate::state::{INITIAL_LINES, LOAD_MORE_LINES, MAX_STORED_LINES};

verus! {

/// How many rows a first page should fill.
pub const INITIAL_HISTORY_ROWS: usize = 120;

/// How many lines are asked for after a page of Matrix history came. The relay
/// keeps history on its own, so one request shows everything that it has.
pub fn matrix_history_snapshot_count() -> (count: usize)
    ensures
        count == MAX_STORED_LINES,
{
    MAX_STORED_LINES
}

/// The size of the next snapshot: a page more than what is there and than what
/// was asked for, up to what a buffer keeps.
pub open spec fn next_request(current: usize, previous: usize) -> Option<usize> {
    let most = if current > previous {
        current
    } else {
        previous
    };
    let base = if most > INITIAL_LINES {
        most
    } else {
        INITIAL_LINES
    };
    if base >= MAX_STORED_LINES {
        None
    } else if base + LOAD_MORE_LINES < MAX_STORED_LINES {
        Some((base + LOAD_MORE_LINES) as usize)
    } else {
        Some(MAX_STORED_LINES)
    }
}

pub fn next_history_request_count(current: usize, previous_request: usize) -> (count: Option<usize>)
    ensures
        count == next_request(current, previous_request),
{
    let most: usize = if current > previous_request {
        current
    } else {
        previous_request
    };
    let base: usize = if most > INITIAL_LINES {
        most
    } else {
        INITIAL_LINES
    };
    if base >= MAX_STORED_LINES {
        None
    } else if base + LOAD_MORE_LINES < MAX_STORED_LINES {
        Some(base + LOAD_MORE_LINES)
    } else {
        Some(MAX_STORED_LINES)
    }
}

/// Every request asks for more than there is and than was asked for before, and
/// never for more than a buffer keeps. Requests end once a buffer is full.
pub proof fn requests_grow_up_to_the_limit(current: usize, previous: usize)
    ensures
        match next_request(current, previous) {
            Some(count) => current < count && previous < count && INITIAL_LINES < count
                <= MAX_STORED_LINES,
            None => current >= MAX_STORED_LINES || previous >= MAX_STORED_LINES,
        },
{
}

/// Whether nothing older is to be had: a snapshot came short, or it is as large
/// as it may be.
pub open spec fn is_exhausted(received: usize, requested: usize) -> bool {
    received < requested || received >= MAX_STORED_LINES
}

pub fn history_snapshot_is_exhausted(received: usize, requested: usize) -> (yes: bool)
    ensures
        yes == is_exhausted(received, requested),
{
    received < requested || received >= MAX_STORED_LINES
}

/// Whether older history is asked for without being told to: once for a first
/// page that is too short, and again whenever the user comes back to the top.
pub open spec fn auto_requests(current: int, attempted: bool, rearmed: bool) -> bool {
    current > 0 && (current < INITIAL_HISTORY_ROWS && !attempted || rearmed)
}

/// Whether older history is asked for without being told to.
pub fn should_auto_request_history(current: usize, attempted: bool, rearmed: bool) -> (yes: bool)
    ensures
        yes == auto_requests(current as int, attempted, rearmed),
{
    current > 0 && ((current < INITIAL_HISTORY_ROWS && !attempted) || rearmed)
}

} // verus!
