//! How fast the game runs: the time between two ticks, given the score.

use std::time::Duration;
use vstd::prelude::*;

verus! {

/// The duration that [`Duration::from_millis`] makes of a number of
/// milliseconds.
pub uninterp spec fn duration_of_millis(millis: u64) -> Duration;

/// `std::time::Duration::from_millis` is taken on trust to be a function of
/// its argument: the duration it returns for a number of milliseconds is the
/// one that [`duration_of_millis`] names. Nothing else is claimed of it.
pub assume_specification[ Duration::from_millis ](millis: u64) -> (d: Duration)
    ensures
        d == duration_of_millis(millis),
;

/// The milliseconds between two ticks at a given score. The game speeds up
/// in steps as the score rises.
pub open spec fn period_millis(score: nat) -> u64 {
    if score <= 1 {
        2000
    } else if score <= 3 {
        1000
    } else if score <= 5 {
        750
    } else if score <= 8 {
        500
    } else if score <= 11 {
        300
    } else {
        200
    }
}

/// The time between two ticks at a given score.
pub open spec fn period_of(score: nat) -> Duration {
    duration_of_millis(period_millis(score))
}

/// The milliseconds between two ticks at a given score.
pub fn period_duration_millis(score: usize) -> (millis: u64)
    ensures
        millis == period_millis(score as nat),
{
    if score <= 1 {
        2000
    } else if score <= 3 {
        1000
    } else if score <= 5 {
        750
    } else if score <= 8 {
        500
    } else if score <= 11 {
        300
    } else {
        200
    }
}

/// The time between two ticks at a given score.
pub fn calculate_period_duration(score: usize) -> (d: Duration)
    ensures
        d == period_of(score as nat),
{
    Duration::from_millis(period_duration_millis(score))
}

} // verus!
