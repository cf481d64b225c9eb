//! Estimates the wall-clock length of a sixteenth note from the beat stream.
use vstd::prelude::*;

use crate::beat_number::BeatNumber;

verus! {

/// What is known of the time between two sixteenth notes. Instants and
/// durations are in microseconds.
#[derive(PartialEq, Eq, Structural, Debug, Clone, Copy)]
pub enum DurationBetweenSixteenthNotes {
    Uninitialized,
    PartiallyInitialized { last_timestamp: u64 },
    Initialized { last_timestamp: u64, last_duration: u64 },
}

impl DurationBetweenSixteenthNotes {
    /// The estimate after a beat observed at `now`. A clock that went
    /// backwards gives no new interval: the last one is kept, or zero
    /// when there is none yet.
    pub open spec fn after_beat(self, now: u64) -> DurationBetweenSixteenthNotes {
        match self {
            DurationBetweenSixteenthNotes::Uninitialized => {
                DurationBetweenSixteenthNotes::PartiallyInitialized { last_timestamp: now }
            },
            DurationBetweenSixteenthNotes::PartiallyInitialized { last_timestamp } => {
                DurationBetweenSixteenthNotes::Initialized {
                    last_timestamp: now,
                    last_duration: if now >= last_timestamp { (now - last_timestamp) as u64 } else { 0 },
                }
            },
            DurationBetweenSixteenthNotes::Initialized { last_timestamp, last_duration } => {
                DurationBetweenSixteenthNotes::Initialized {
                    last_timestamp: now,
                    last_duration: if now >= last_timestamp {
                        (now - last_timestamp) as u64
                    } else {
                        last_duration
                    },
                }
            },
        }
    }

    pub open spec fn duration(self) -> Option<u64> {
        match self {
            DurationBetweenSixteenthNotes::Initialized { last_duration, .. } => Some(last_duration),
            _ => None,
        }
    }

    pub fn new() -> (r: DurationBetweenSixteenthNotes)
        ensures
            r == DurationBetweenSixteenthNotes::Uninitialized,
    {
        DurationBetweenSixteenthNotes::Uninitialized
    }

    /// Takes in a beat observed at `now`.
    pub fn process_beat_message(&self, _beat_message: &BeatNumber, now: u64) -> (r:
        DurationBetweenSixteenthNotes)
        ensures
            r == self.after_beat(now),
    {
        match self {
            DurationBetweenSixteenthNotes::Uninitialized => {
                DurationBetweenSixteenthNotes::PartiallyInitialized { last_timestamp: now }
            },
            DurationBetweenSixteenthNotes::PartiallyInitialized { last_timestamp } => {
                let last_duration = if now >= *last_timestamp { now - *last_timestamp } else { 0 };
                DurationBetweenSixteenthNotes::Initialized { last_timestamp: now, last_duration }
            },
            DurationBetweenSixteenthNotes::Initialized { last_timestamp, last_duration } => {
                let new_duration = if now >= *last_timestamp {
                    now - *last_timestamp
                } else {
                    *last_duration
                };
                DurationBetweenSixteenthNotes::Initialized {
                    last_timestamp: now,
                    last_duration: new_duration,
                }
            },
        }
    }

    /// The latest interval, once two beats have been seen.
    pub fn get_duration(&self) -> (r: Option<u64>)
        ensures
            r == self.duration(),
    {
        match self {
            DurationBetweenSixteenthNotes::Initialized { last_duration, .. } => Some(*last_duration),
            _ => None,
        }
    }
}

} // verus!
