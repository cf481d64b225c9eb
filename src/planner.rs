//! Planning lines against the measure/beat grid.
use vstd::prelude::*;

use crate::beat_number::{BeatNumber, MeasureBeat};
use crate::line::{consecutive_starts_differ, Line, LineNote, MAX_NOTE};

verus! {

/// A MIDI note number and the position where it sounds or stops.
#[derive(PartialEq, Eq, Structural, Debug, Clone, Copy)]
pub struct NoteAndMeasureBeat {
    pub note: u8,
    pub measure_beat: MeasureBeat,
}

/// One note of a plan, with whether its note-on and note-off went out.
#[derive(PartialEq, Eq, Structural, Debug, Clone, Copy)]
pub struct PlannedNote {
    pub note_on: NoteAndMeasureBeat,
    pub note_off: NoteAndMeasureBeat,
    pub has_note_on_fired: bool,
    pub has_note_off_fired: bool,
}

/// `note` moved by `half_steps`, when that is still a MIDI note.
pub open spec fn step_spec(note: u8, half_steps: int) -> Option<u8> {
    if 0 <= note + half_steps <= 127 {
        Some((note + half_steps) as u8)
    } else {
        None
    }
}

/// Transposes a MIDI note by `half_steps`, if the result is a MIDI note.
pub fn step(note: u8, half_steps: i32) -> (r: Option<u8>)
    ensures
        r == step_spec(note, half_steps as int),
{
    let value = note as i64 + half_steps as i64;
    if 0 <= value && value <= MAX_NOTE as i64 {
        Some(value as u8)
    } else {
        None
    }
}

/// The planned note for `line_note` starting at `start`, transposed by `offset`.
pub open spec fn planned_note_spec(line_note: LineNote, start: MeasureBeat, offset: int) -> PlannedNote {
    let pitch = (line_note.note + offset) as u8;
    PlannedNote {
        note_on: NoteAndMeasureBeat { note: pitch, measure_beat: start },
        note_off: NoteAndMeasureBeat {
            note: pitch,
            measure_beat: start.advanced(line_note.duration as nat),
        },
        has_note_on_fired: false,
        has_note_off_fired: false,
    }
}

impl PlannedNote {
    pub fn new(line_note: &LineNote, measure_beat_start: MeasureBeat, pitch_offset: i32) -> (r:
        PlannedNote)
        requires
            line_note.wf(),
            line_note.fits_key(pitch_offset as int),
            measure_beat_start.wf(),
            measure_beat_start.fits_after(line_note.duration as nat),
        ensures
            r == planned_note_spec(*line_note, measure_beat_start, pitch_offset as int),
    {
        let note_adjusted = match step(line_note.note, pitch_offset) {
            Some(note) => note,
            None => 0,
        };
        PlannedNote {
            note_on: NoteAndMeasureBeat { note: note_adjusted, measure_beat: measure_beat_start },
            note_off: NoteAndMeasureBeat {
                note: note_adjusted,
                measure_beat: measure_beat_start.incremented_by(line_note.duration),
            },
            has_note_on_fired: false,
            has_note_off_fired: false,
        }
    }
}

/// The beat of a note once the whole line is moved `shift` sixteenths later.
pub open spec fn shifted_beat(note: LineNote, shift: int) -> int {
    (note.start.sixteenth_note + shift) % 16
}

/// The measure of the `k`-th note of a plan whose first note lies in
/// measure `m0`: one more for every wrap of the beat back to an earlier one.
pub open spec fn plan_measure(notes: Seq<LineNote>, shift: int, m0: int, k: int) -> int
    decreases k,
{
    if k <= 0 {
        m0
    } else {
        plan_measure(notes, shift, m0, k - 1) + if shifted_beat(notes[k - 1], shift) > shifted_beat(
            notes[k],
            shift,
        ) {
            1int
        } else {
            0int
        }
    }
}

/// Where the `k`-th note of a plan starts.
pub open spec fn plan_on_beat(notes: Seq<LineNote>, shift: int, m0: int, k: int) -> MeasureBeat {
    MeasureBeat {
        beat_number: BeatNumber { sixteenth_note: shifted_beat(notes[k], shift) as u32 },
        measure: plan_measure(notes, shift, m0, k) as u32,
    }
}

/// The plan of a whole line: its notes moved `shift` sixteenths later,
/// starting in measure `m0`, transposed by `offset`.
pub open spec fn planned_line(notes: Seq<LineNote>, shift: int, m0: int, offset: int) -> Seq<
    PlannedNote,
> {
    Seq::new(notes.len(), |k: int| planned_note_spec(notes[k], plan_on_beat(notes, shift, m0, k), offset))
}

/// Every note of a plan starting in measure `m0`, and its end, keeps a
/// measure number that fits in a `u32`.
pub open spec fn plan_fits(notes: Seq<LineNote>, m0: int) -> bool {
    forall|k: int|
        0 <= k < notes.len() ==> (m0 + k) * 16 + 15 + (#[trigger] notes[k]).duration < 16 * (
        u32::MAX as int + 1)
}

/// The measure of the first note of an initial plan: the eligible measure
/// when the note does not start before the eligible beat, else the next one.
pub open spec fn initial_first_measure(first_note: LineNote, first_eligible: MeasureBeat) -> int {
    if first_note.start.sixteenth_note >= first_eligible.beat_number.sixteenth_note {
        first_eligible.measure as int
    } else {
        first_eligible.measure + 1
    }
}

/// How far an overlapping plan moves a line so that its first note falls on `start`.
pub open spec fn overlap_shift(first_note: LineNote, start: MeasureBeat) -> int {
    (start.beat_number.sixteenth_note - first_note.start.sixteenth_note) % 16
}

/// From entry `from` on, the note-ons come in strictly increasing (measure, beat) order.
pub open spec fn notes_in_order(planned: Seq<PlannedNote>, from: int) -> bool {
    forall|j: int, k: int|
        from <= j < k < planned.len() ==> (#[trigger] planned[j]).note_on.measure_beat.position() < (
        #[trigger] planned[k]).note_on.measure_beat.position()
}

/// A list with its last two entries taken away (all of it when shorter).
pub open spec fn drop_last_two<T>(s: Seq<T>) -> Seq<T> {
    if s.len() >= 2 {
        s.subrange(0, s.len() - 2)
    } else {
        Seq::empty()
    }
}

proof fn lemma_plan_measure_bounds(notes: Seq<LineNote>, shift: int, m0: int, k: int)
    requires
        0 <= k,
    ensures
        m0 <= plan_measure(notes, shift, m0, k) <= m0 + k,
    decreases k,
{
    if k > 0 {
        lemma_plan_measure_bounds(notes, shift, m0, k - 1);
    }
}

proof fn lemma_plan_on_beat_facts(notes: Seq<LineNote>, shift: int, m0: int, k: int)
    requires
        0 <= m0,
        0 <= shift < 16,
        plan_fits(notes, m0),
        0 <= k < notes.len(),
    ensures
        plan_on_beat(notes, shift, m0, k).wf(),
        plan_on_beat(notes, shift, m0, k).position() == plan_measure(notes, shift, m0, k) * 16
            + shifted_beat(notes[k], shift),
        plan_on_beat(notes, shift, m0, k).fits_after(notes[k].duration as nat),
{
    lemma_plan_measure_bounds(notes, shift, m0, k);
    assert((m0 + k) * 16 + 15 + notes[k].duration < 16 * (u32::MAX as int + 1));
}

#[verifier::spinoff_prover]
#[verifier::rlimit(40)]
proof fn lemma_plan_step_increases(notes: Seq<LineNote>, shift: int, m0: int, k: int)
    requires
        forall|i: int| 0 <= i < notes.len() ==> (#[trigger] notes[i]).wf(),
        consecutive_starts_differ(notes),
        0 <= m0,
        0 <= shift < 16,
        plan_fits(notes, m0),
        0 < k < notes.len(),
    ensures
        plan_on_beat(notes, shift, m0, k - 1).position() < plan_on_beat(notes, shift, m0, k).position(),
{
    lemma_plan_on_beat_facts(notes, shift, m0, k - 1);
    lemma_plan_on_beat_facts(notes, shift, m0, k);
    let prev = notes[k - 1];
    let cur = notes[k];
    assert(prev.wf() && cur.wf());
    assert(prev.start != cur.start);
    let b0 = shifted_beat(prev, shift);
    let b1 = shifted_beat(cur, shift);
    assert(b0 != b1);
    assert(0 <= b0 < 16 && 0 <= b1 < 16);
    let m_prev = plan_measure(notes, shift, m0, k - 1);
    let m_cur = plan_measure(notes, shift, m0, k);
    assert(m_cur == m_prev + if b0 > b1 { 1int } else { 0int });
    if b0 > b1 {
        assert(m_cur * 16 == m_prev * 16 + 16);
    } else {
        assert(m_cur * 16 == m_prev * 16);
    }
}

proof fn lemma_plan_increases(notes: Seq<LineNote>, shift: int, m0: int, i: int, j: int)
    requires
        forall|k: int| 0 <= k < notes.len() ==> (#[trigger] notes[k]).wf(),
        consecutive_starts_differ(notes),
        0 <= m0,
        0 <= shift < 16,
        plan_fits(notes, m0),
        0 <= i < j < notes.len(),
    ensures
        plan_on_beat(notes, shift, m0, i).position() < plan_on_beat(notes, shift, m0, j).position(),
    decreases j - i,
{
    lemma_plan_step_increases(notes, shift, m0, j);
    if i < j - 1 {
        lemma_plan_increases(notes, shift, m0, i, j - 1);
    }
}

/// In the plan of a line whose consecutive notes start on different beats,
/// the note-ons come in strictly increasing (measure, beat) order, each
/// note-off lies the note's duration after its note-on, and the measure grows
/// by one exactly where the beat wraps back.
pub proof fn lemma_planned_line_in_order(
    notes: Seq<LineNote>,
    shift: int,
    m0: int,
    offset: int,
    i: int,
    j: int,
)
    requires
        forall|k: int| 0 <= k < notes.len() ==> (#[trigger] notes[k]).wf(),
        consecutive_starts_differ(notes),
        0 <= m0,
        0 <= shift < 16,
        plan_fits(notes, m0),
        0 <= i < j < notes.len(),
    ensures
        planned_line(notes, shift, m0, offset)[i].note_on.measure_beat.position() < planned_line(
            notes,
            shift,
            m0,
            offset,
        )[j].note_on.measure_beat.position(),
        planned_line(notes, shift, m0, offset)[j].note_off.measure_beat.position() == planned_line(
            notes,
            shift,
            m0,
            offset,
        )[j].note_on.measure_beat.position() + notes[j].duration,
        planned_line(notes, shift, m0, offset)[j].note_on.measure_beat.measure == planned_line(
            notes,
            shift,
            m0,
            offset,
        )[j - 1].note_on.measure_beat.measure + if shifted_beat(notes[j - 1], shift)
            > shifted_beat(notes[j], shift) {
            1int
        } else {
            0int
        },
{
    lemma_plan_increases(notes, shift, m0, i, j);
    lemma_plan_on_beat_facts(notes, shift, m0, j);
    lemma_plan_on_beat_facts(notes, shift, m0, j - 1);
    lemma_plan_measure_bounds(notes, shift, m0, j);
    lemma_plan_measure_bounds(notes, shift, m0, j - 1);
    crate::beat_number::lemma_advanced_position(
        plan_on_beat(notes, shift, m0, j),
        notes[j].duration as nat,
    );
}

/// The notes of a plan, in the order they are to be played.
pub struct PlannedNotes {
    planned_notes: Vec<PlannedNote>,
}

impl View for PlannedNotes {
    type V = Seq<PlannedNote>;

    closed spec fn view(&self) -> Seq<PlannedNote> {
        self.planned_notes@
    }
}

impl PlannedNotes {
    /// An empty plan.
    pub fn new() -> (r: PlannedNotes)
        ensures
            r@ == Seq::<PlannedNote>::empty(),
    {
        PlannedNotes { planned_notes: Vec::new() }
    }

    pub fn len(&self) -> (r: usize)
        ensures
            r == self@.len(),
    {
        self.planned_notes.len()
    }

    pub fn get(&self, index: usize) -> (r: PlannedNote)
        requires
            index < self@.len(),
        ensures
            r == self@[index as int],
    {
        self.planned_notes[index]
    }

    pub fn push(&mut self, planned_note: PlannedNote)
        ensures
            final(self)@ == old(self)@.push(planned_note),
    {
        self.planned_notes.push(planned_note);
    }

    /// Records that the note-on of entry `index` went out.
    pub fn set_note_on_fired(&mut self, index: usize)
        requires
            index < old(self)@.len(),
        ensures
            final(self)@ == old(self)@.update(
                index as int,
                PlannedNote { has_note_on_fired: true, ..old(self)@[index as int] },
            ),
    {
        let mut planned_note = self.planned_notes[index];
        planned_note.has_note_on_fired = true;
        self.planned_notes.set(index, planned_note);
    }

    /// Records that the note-off of entry `index` went out.
    pub fn set_note_off_fired(&mut self, index: usize)
        requires
            index < old(self)@.len(),
        ensures
            final(self)@ == old(self)@.update(
                index as int,
                PlannedNote { has_note_off_fired: true, ..old(self)@[index as int] },
            ),
    {
        let mut planned_note = self.planned_notes[index];
        planned_note.has_note_off_fired = true;
        self.planned_notes.set(index, planned_note);
    }

    /// Whether `measure_beat` is where the second-to-last entry starts.
    pub fn is_next_beat_message_pickup_to_the_last_note(&self, measure_beat: MeasureBeat) -> (r:
        bool)
        ensures
            r == (self@.len() >= 2 && self@[self@.len() - 2].note_on.measure_beat == measure_beat),
    {
        let num_planned_notes = self.planned_notes.len();
        if num_planned_notes < 2 {
            return false;
        }
        let second_to_last_note = &self.planned_notes[num_planned_notes - 2];
        second_to_last_note.note_on.measure_beat == measure_beat
    }

    /// The first entry whose note-on falls on `measure_beat`.
    pub fn position_of_note_on(&self, measure_beat: MeasureBeat) -> (r: Option<usize>)
        ensures
            match r {
                Some(i) => i < self@.len() && self@[i as int].note_on.measure_beat == measure_beat
                    && forall|j: int|
                    0 <= j < i ==> (#[trigger] self@[j]).note_on.measure_beat != measure_beat,
                None => forall|j: int|
                    0 <= j < self@.len() ==> (#[trigger] self@[j]).note_on.measure_beat
                        != measure_beat,
            },
    {
        let mut i: usize = 0;
        while i < self.planned_notes.len()
            invariant
                i <= self@.len(),
                forall|j: int| 0 <= j < i ==> (#[trigger] self@[j]).note_on.measure_beat != measure_beat,
            decreases self@.len() - i,
        {
            if self.planned_notes[i].note_on.measure_beat == measure_beat {
                return Some(i);
            }
            i = i + 1;
        }
        None
    }

    /// Appends the plan of `line` moved `shift` sixteenths later, starting in
    /// measure `first_measure`.
    fn append_line(&mut self, line: &Line, pitch_offset: i32, shift: u32, first_measure: u32)
        requires
            line.wf(),
            line.fits_key(pitch_offset as int),
            shift < 16,
            plan_fits(line.notes@, first_measure as int),
        ensures
            final(self)@ == old(self)@ + planned_line(
                line.notes@,
                shift as int,
                first_measure as int,
                pitch_offset as int,
            ),
            notes_in_order(final(self)@, old(self)@.len() as int),
    {
        let ghost notes = line.notes@;
        let ghost start = self@;
        let ghost plan = planned_line(notes, shift as int, first_measure as int, pitch_offset as int);
        let mut current_measure: u32 = first_measure;
        let mut last_beat: u32 = 0;
        let mut k: usize = 0;
        while k < line.notes.len()
            invariant
                line.wf(),
                line.fits_key(pitch_offset as int),
                shift < 16,
                plan_fits(notes, first_measure as int),
                notes == line.notes@,
                plan == planned_line(notes, shift as int, first_measure as int, pitch_offset as int),
                k <= notes.len(),
                self@ == start + plan.subrange(0, k as int),
                k == 0 ==> current_measure == first_measure,
                k > 0 ==> current_measure == plan_measure(
                    notes,
                    shift as int,
                    first_measure as int,
                    k - 1,
                ),
                k > 0 ==> last_beat == shifted_beat(notes[k - 1], shift as int),
            decreases notes.len() - k,
        {
            let note = line.notes[k];
            let beat = (note.start.sixteenth_note + shift) % 16;
            proof {
                lemma_plan_measure_bounds(notes, shift as int, first_measure as int, k as int);
                assert(notes[k as int].wf());
                assert(notes[k as int].fits_key(pitch_offset as int));
            }
            if k > 0 && last_beat > beat {
                current_measure = current_measure + 1;
            }
            assert(current_measure == plan_measure(notes, shift as int, first_measure as int, k as int));
            let on = MeasureBeat::new(BeatNumber { sixteenth_note: beat }, current_measure);
            assert(on == plan_on_beat(notes, shift as int, first_measure as int, k as int));
            let planned_note = PlannedNote::new(&note, on, pitch_offset);
            self.push(planned_note);
            proof {
                assert(self@ =~= start + plan.subrange(0, k + 1));
            }
            last_beat = beat;
            k = k + 1;
        }
        proof {
            assert(plan.subrange(0, notes.len() as int) =~= plan);
            let n0 = start.len() as int;
            assert forall|j: int, k: int| n0 <= j < k < self@.len() implies (
            #[trigger] self@[j]).note_on.measure_beat.position() < (
            #[trigger] self@[k]).note_on.measure_beat.position() by {
                lemma_plan_increases(notes, shift as int, first_measure as int, j - n0, k - n0);
                assert(self@[j] == plan[j - n0]);
                assert(self@[k] == plan[k - n0]);
            }
        }
    }

    /// Takes away the last two entries (all of them when there are fewer).
    pub fn drop_last_two(&mut self)
        ensures
            final(self)@ == drop_last_two(old(self)@),
    {
        if self.planned_notes.len() >= 2 {
            self.planned_notes.pop();
            self.planned_notes.pop();
            proof {
                assert(self@ =~= drop_last_two(old(self)@));
            }
        } else {
            self.planned_notes.clear();
            proof {
                assert(self@ =~= drop_last_two(old(self)@));
            }
        }
    }
}

impl Default for PlannedNotes {
    /// An empty plan.
    fn default() -> (r: PlannedNotes)
        ensures
            r@ == Seq::<PlannedNote>::empty(),
    {
        PlannedNotes::new()
    }
}

/// Plans `line` from `first_eligible_measure_beat` on: each note on its own
/// beat, the first in the eligible measure unless it starts before the eligible
/// beat, and one measure later at every wrap of the beat.
pub fn plan_initial_line(
    planned_notes: &mut PlannedNotes,
    line: &Line,
    outside_of_the_key_offset: i32,
    first_eligible_measure_beat: MeasureBeat,
)
    requires
        line.wf(),
        line.fits_key(outside_of_the_key_offset as int),
        first_eligible_measure_beat.wf(),
        plan_fits(line.notes@, initial_first_measure(line.notes@[0], first_eligible_measure_beat)),
    ensures
        final(planned_notes)@ == old(planned_notes)@ + planned_line(
            line.notes@,
            0,
            initial_first_measure(line.notes@[0], first_eligible_measure_beat),
            outside_of_the_key_offset as int,
        ),
        notes_in_order(final(planned_notes)@, old(planned_notes)@.len() as int),
{
    let first_note_start_beat = line.notes[0].start;
    assert(line.notes@[0].wf());
    let current_measure = if first_note_start_beat.sixteenth_note
        >= first_eligible_measure_beat.beat_number.sixteenth_note {
        first_eligible_measure_beat.measure
    } else {
        first_eligible_measure_beat.measure + 1
    };
    planned_notes.append_line(line, outside_of_the_key_offset, 0, current_measure);
}

/// Replaces the last two entries by the plan of `line`, moved so that its
/// first note falls on `start_measure_beat`.
pub fn plan_overlapping_line(
    planned_notes: &mut PlannedNotes,
    line: &Line,
    outside_of_the_key_offset: i32,
    start_measure_beat: MeasureBeat,
)
    requires
        line.wf(),
        line.fits_key(outside_of_the_key_offset as int),
        start_measure_beat.wf(),
        plan_fits(line.notes@, start_measure_beat.measure as int),
    ensures
        final(planned_notes)@ == drop_last_two(old(planned_notes)@) + planned_line(
            line.notes@,
            overlap_shift(line.notes@[0], start_measure_beat),
            start_measure_beat.measure as int,
            outside_of_the_key_offset as int,
        ),
        notes_in_order(final(planned_notes)@, drop_last_two(old(planned_notes)@).len() as int),
{
    planned_notes.drop_last_two();
    let first_note_start_beat = line.notes[0].start;
    assert(line.notes@[0].wf());
    let shift = (start_measure_beat.beat_number.sixteenth_note + 16
        - first_note_start_beat.sixteenth_note) % 16;
    assert(shift as int == overlap_shift(line.notes@[0], start_measure_beat));
    planned_notes.append_line(line, outside_of_the_key_offset, shift, start_measure_beat.measure);
}

} // verus!
