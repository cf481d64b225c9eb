//! Lines: melodic fragments of (start beat, duration, MIDI note).
use vstd::prelude::*;

use crate::beat_number::BeatNumber;

verus! {

/// The highest MIDI note number.
pub const MAX_NOTE: u8 = 127;

/// One note of a line: where in the measure it starts, how many
/// sixteenths it lasts, and its MIDI note number.
#[derive(PartialEq, Eq, Structural, Debug, Clone, Copy)]
pub struct LineNote {
    pub start: BeatNumber,
    pub duration: u32,
    pub note: u8,
}

impl LineNote {
    pub open spec fn wf(self) -> bool {
        &&& self.start.wf()
        &&& self.duration >= 1
        &&& self.note <= 127
    }

    /// The note, transposed by `offset` semitones, is still a MIDI note.
    pub open spec fn fits_key(self, offset: int) -> bool {
        0 <= self.note + offset <= 127
    }
}

/// The starts of consecutive notes differ: a line never plays two notes on one beat.
pub open spec fn consecutive_starts_differ(notes: Seq<LineNote>) -> bool {
    forall|k: int| 0 < k < notes.len() ==> notes[k - 1].start != (#[trigger] notes[k]).start
}

/// A melodic fragment: its notes in playing order.
#[derive(PartialEq, Eq, Debug)]
pub struct Line {
    pub notes: Vec<LineNote>,
}

impl Line {
    pub open spec fn wf(&self) -> bool {
        &&& self.notes@.len() > 0
        &&& forall|k: int| 0 <= k < self.notes@.len() ==> (#[trigger] self.notes@[k]).wf()
        &&& consecutive_starts_differ(self.notes@)
    }

    /// Every note, transposed by `offset`, is still a MIDI note.
    pub open spec fn fits_key(&self, offset: int) -> bool {
        forall|k: int| 0 <= k < self.notes@.len() ==> (#[trigger] self.notes@[k]).fits_key(offset)
    }

    pub fn new(notes: Vec<LineNote>) -> (r: Line)
        ensures
            r.notes@ == notes@,
    {
        Line { notes }
    }

    /// Whether the next beat is the pickup to the second-to-last note, while
    /// that note is the next one to play.
    pub fn is_next_beat_message_pickup_to_the_last_note(
        &self,
        beat_message: BeatNumber,
        next_note_index: usize,
    ) -> (r: bool)
        ensures
            r == (self.notes@.len() >= 2 && next_note_index == self.notes@.len() - 2
                && self.notes@[next_note_index as int].start == beat_message.plus(1)),
    {
        if self.notes.len() < 2 || next_note_index != self.notes.len() - 2 {
            return false;
        }
        let second_to_last_note = &self.notes[next_note_index];
        second_to_last_note.start == beat_message.add_sixteenths(1)
    }

    /// Whether the line can be planned: it has notes, and they are valid.
    pub fn is_playable(&self) -> (r: bool)
        ensures
            r == self.wf(),
    {
        if self.notes.len() == 0 {
            return false;
        }
        let mut k: usize = 0;
        while k < self.notes.len()
            invariant
                k <= self.notes@.len(),
                forall|j: int| 0 <= j < k ==> (#[trigger] self.notes@[j]).wf(),
                forall|j: int| 0 < j < k ==> self.notes@[j - 1].start != (#[trigger] self.notes@[j]).start,
            decreases self.notes@.len() - k,
        {
            let note = self.notes[k];
            if note.start.sixteenth_note >= 16 || note.duration < 1 || note.note > MAX_NOTE {
                return false;
            }
            if k > 0 && self.notes[k - 1].start == note.start {
                return false;
            }
            k = k + 1;
        }
        true
    }

    /// Whether every note, transposed by `offset`, is still a MIDI note.
    pub fn fits_key_exec(&self, offset: i32) -> (r: bool)
        requires
            self.wf(),
        ensures
            r == self.fits_key(offset as int),
    {
        let mut k: usize = 0;
        while k < self.notes.len()
            invariant
                self.wf(),
                k <= self.notes@.len(),
                forall|j: int| 0 <= j < k ==> (#[trigger] self.notes@[j]).fits_key(offset as int),
            decreases self.notes@.len() - k,
        {
            let pitch = self.notes[k].note as i64 + offset as i64;
            if pitch < 0 || pitch > MAX_NOTE as i64 {
                assert(!self.notes@[k as int].fits_key(offset as int));
                return false;
            }
            k = k + 1;
        }
        true
    }
}

} // verus!
