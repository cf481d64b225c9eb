//! Chord progressions, and the cursor that walks one measure by measure.
use vstd::prelude::*;

use crate::chord::{Chord, Quality};
use crate::pitch::{Letter, Modifier, Pitch};

verus! {

/// A cyclic sequence of chords, one per measure.
#[derive(Debug)]
pub struct Progression {
    pub chords: Vec<Chord>,
}

/// Copies a slice of chords into a vector.
fn copy_chords(chords: &[Chord]) -> (r: Vec<Chord>)
    ensures
        r@ == chords@,
{
    let mut r: Vec<Chord> = Vec::new();
    let mut i: usize = 0;
    while i < chords.len()
        invariant
            i <= chords@.len(),
            r@ == chords@.subrange(0, i as int),
        decreases chords@.len() - i,
    {
        r.push(chords[i]);
        i = i + 1;
        proof {
            assert(r@ =~= chords@.subrange(0, i as int));
        }
    }
    proof {
        assert(r@ =~= chords@);
    }
    r
}

impl Progression {
    /// A progression to play has at least one chord.
    pub open spec fn wf(&self) -> bool {
        self.chords@.len() > 0
    }

    pub fn new(chords: &[Chord]) -> (r: Progression)
        ensures
            r.chords@ == chords@,
    {
        Progression { chords: copy_chords(chords) }
    }
}

impl Default for Progression {
    /// C major alone.
    fn default() -> (r: Progression)
        ensures
            r.chords@ == seq![
                Chord {
                    pitch: Pitch { letter: Letter::C, modifier: Modifier::Natural },
                    quality: Quality::Major,
                },
            ],
    {
        let chord = Chord::new(Pitch::new(Letter::C, Modifier::Natural), Quality::Major);
        let mut chords: Vec<Chord> = Vec::new();
        chords.push(chord);
        proof {
            assert(chords@ =~= seq![chord]);
        }
        Progression { chords }
    }
}

/// A song: the chords it goes through, in order.
#[derive(Debug)]
pub struct Song {
    pub chords: Vec<Chord>,
}

impl Song {
    pub fn new(chords: &[Chord]) -> (r: Song)
        ensures
            r.chords@ == chords@,
    {
        Song { chords: copy_chords(chords) }
    }
}

/// Where the cursor stands: before the first measure, or at a chord.
#[derive(PartialEq, Eq, Structural, Debug, Clone, Copy)]
pub enum ProgressionChordIndexState {
    HaventStarted,
    AtChordIndex(usize),
}

/// Walks a progression, one chord per measure, wrapping at the end.
pub struct ProgressionState<'progression> {
    progression: &'progression Progression,
    chord_index_state: ProgressionChordIndexState,
}

impl<'progression> ProgressionState<'progression> {
    pub closed spec fn chords(&self) -> Seq<Chord> {
        self.progression.chords@
    }

    pub closed spec fn state(&self) -> ProgressionChordIndexState {
        self.chord_index_state
    }

    pub open spec fn wf(&self) -> bool {
        &&& self.chords().len() > 0
        &&& match self.state() {
            ProgressionChordIndexState::HaventStarted => true,
            ProgressionChordIndexState::AtChordIndex(i) => i < self.chords().len(),
        }
    }

    /// The index of the current chord; the first one before the start.
    pub open spec fn index_spec(&self) -> int {
        match self.state() {
            ProgressionChordIndexState::HaventStarted => 0,
            ProgressionChordIndexState::AtChordIndex(i) => i as int,
        }
    }

    /// The state after one more measure boundary.
    pub open spec fn ticked(self_state: ProgressionChordIndexState, len: nat) -> ProgressionChordIndexState {
        match self_state {
            ProgressionChordIndexState::HaventStarted => ProgressionChordIndexState::AtChordIndex(0),
            ProgressionChordIndexState::AtChordIndex(i) => ProgressionChordIndexState::AtChordIndex(
                ((i + 1) % (len as int)) as usize,
            ),
        }
    }

    pub fn new(progression: &'progression Progression) -> (r: ProgressionState<'progression>)
        requires
            progression.wf(),
        ensures
            r.wf(),
            r.chords() == progression.chords@,
            r.state() == ProgressionChordIndexState::HaventStarted,
    {
        ProgressionState { progression, chord_index_state: ProgressionChordIndexState::HaventStarted }
    }

    pub fn chord_index(&self) -> (r: usize)
        requires
            self.wf(),
        ensures
            r == self.index_spec(),
            r < self.chords().len(),
    {
        if let ProgressionChordIndexState::AtChordIndex(chord_index) = self.chord_index_state {
            chord_index
        } else {
            0
        }
    }

    /// The chord of the current measure; the first chord before the start.
    pub fn current_chord(&self) -> (r: &Chord)
        requires
            self.wf(),
        ensures
            *r == self.chords()[self.index_spec()],
    {
        &self.progression.chords[self.chord_index()]
    }

    /// Moves to the next measure's chord.
    pub fn tick_measure(&mut self)
        requires
            old(self).wf(),
        ensures
            final(self).wf(),
            final(self).chords() == old(self).chords(),
            final(self).state() == Self::ticked(old(self).state(), old(self).chords().len()),
    {
        let len = self.progression.chords.len();
        let next = match self.chord_index_state {
            ProgressionChordIndexState::HaventStarted => ProgressionChordIndexState::AtChordIndex(0),
            ProgressionChordIndexState::AtChordIndex(chord_index) => {
                ProgressionChordIndexState::AtChordIndex((chord_index + 1) % len)
            },
        };
        self.chord_index_state = next;
    }

    pub fn has_started(&self) -> (r: bool)
        ensures
            r == (self.state() != ProgressionChordIndexState::HaventStarted),
    {
        !matches!(self.chord_index_state, ProgressionChordIndexState::HaventStarted)
    }
}

} // verus!
