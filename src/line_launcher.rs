//! The playback state machine: the single owner of the plan, which turns
//! beats, slider changes and scheduler firings into scheduling requests and
//! MIDI notes. Running the schedulers and sending the notes is the caller's.
use vstd::prelude::*;

use crate::beat_number::{BeatNumber, MeasureBeat};
use crate::harmony::{continuation_search, find_continuation, first_continuing_line, plan_fits_exec};
use crate::line::Line;
use crate::midi::RATIO_SCALE;
use crate::planner::{
    drop_last_two, initial_first_measure, overlap_shift, plan_fits, plan_initial_line,
    plan_overlapping_line, planned_line, PlannedNote, PlannedNotes,
};
use crate::progression::{Progression, ProgressionChordIndexState, ProgressionState};
use crate::random::random_below;
use crate::scheduler::{
    FireNoteOffMessage, FireNoteOnMessage, ScheduleNoteOffMessage, ScheduleNoteOnMessage,
};
use crate::sixteenth_interval::DurationBetweenSixteenthNotes;

verus! {

/// Default duration ratio: a whole sixteenth.
pub const DEFAULT_DURATION_RATIO: u32 = RATIO_SCALE;

/// Default ahead-or-behind ratio: on the beat.
pub const DEFAULT_AHEAD_OR_BEHIND_RATIO: u32 = RATIO_SCALE / 2;

/// Default randomization ratio: none.
pub const DEFAULT_RANDOMIZE_RATIO: u32 = 0;

/// Denominator of the note-on delay factor: twice the square of the ratio scale.
pub const DELAY_DENOMINATOR: u64 = 129032;

/// What a playback is at: the latest line planned, its key offset, and how
/// far the note-ons and note-offs have got.
#[derive(PartialEq, Eq, Structural, Debug, Clone, Copy)]
pub enum PlayingState {
    NotPlaying,
    Playing { line_index: usize, next_note_index: usize, pitch_offset: i8, next_note_off_index: usize },
}

/// One event for the playback state machine. Ratios are in steps of
/// `1 / RATIO_SCALE`.
#[derive(PartialEq, Eq, Structural, Debug, Clone, Copy)]
pub enum CombinedMessage {
    BeatMessage(BeatNumber),
    DurationRatioMessage(u32),
    AheadOrBehindTheBeatRatioMessage(u32),
    RandomizeNoteStartTimeRatioMessage(u32),
    FireNoteOnMessage(FireNoteOnMessage),
    FireNoteOffMessage(FireNoteOffMessage),
}

/// A beat that cannot be handled: a note is planned on the next sixteenth
/// but no interval between sixteenths is known yet to time it.
#[derive(PartialEq, Eq, Structural, Debug, Clone, Copy)]
pub enum SchedulingError {
    MissingSixteenthInterval,
}

/// What the caller is to do after an event, in this order.
#[derive(PartialEq, Eq, Structural, Debug, Clone, Copy)]
pub enum Action {
    ScheduleNoteOn(ScheduleNoteOnMessage),
    ScheduleNoteOff(ScheduleNoteOffMessage),
    NoteOn(u8),
    NoteOff(u8),
}

/// What firing a note-on does: a note-off for the previous note when it is
/// still sounding, the note-on itself, and a request for its note-off.
#[derive(PartialEq, Eq, Structural, Debug, Clone, Copy)]
pub struct NoteOnFiring {
    pub preceding_note_off: Option<u8>,
    pub note_on: Option<u8>,
    pub schedule_note_off: Option<ScheduleNoteOffMessage>,
}

/// The library of lines and the progression to play them over.
pub struct LineLauncher {
    lines: Vec<Line>,
    progression: Progression,
}

/// The mathematical state of a playback.
pub struct PlaybackView {
    pub planned: Seq<PlannedNote>,
    pub next_measure_beat: MeasureBeat,
    pub chord_state: ProgressionChordIndexState,
    pub interval: DurationBetweenSixteenthNotes,
    pub duration_ratio: Option<u32>,
    pub ahead_or_behind_the_beat_ratio: Option<u32>,
    pub randomize_note_start_time_ratio: Option<u32>,
    pub last_planned_line_index: int,
    pub last_planned_outside_of_the_key_offset: int,
}

/// A saturating sum of an instant and a delay, in microseconds.
pub open spec fn saturating_deadline(now: u64, delay: int) -> u64 {
    if now + delay > u64::MAX {
        u64::MAX
    } else {
        (now + delay) as u64
    }
}

/// The note-on delay factor, over `DELAY_DENOMINATOR`: one sixteenth, moved
/// by the ahead-or-behind ratio `(ahead - 1/2) * 2` (below the half is ahead
/// of the beat, above it behind) and by the random jitter
/// `(jitter - 1/2) * randomize`, with `jitter` drawn in `0..=RATIO_SCALE`.
pub open spec fn delay_numerator(ahead: int, randomize: int, jitter: int) -> int {
    2 * 254 * 254 + 2 * 254 * (2 * ahead - 254) + (2 * jitter - 254) * randomize
}

/// When a note-on planned for the next beat is due: `interval` times the
/// delay factor (never negative) after `now`.
pub open spec fn note_on_deadline(
    now: u64,
    interval: u64,
    ahead: Option<u32>,
    randomize: Option<u32>,
    jitter: u32,
) -> u64 {
    let a = match ahead {
        Some(a) => a as int,
        None => 127int,
    };
    let r = match randomize {
        Some(r) => r as int,
        None => 0int,
    };
    let n = delay_numerator(a, r, jitter as int);
    saturating_deadline(now, if n <= 0 { 0 } else { (interval * n) / (2 * 254 * 254int) })
}

/// When the note-off of a note fired at `now` is due: the duration ratio of a sixteenth later.
pub open spec fn note_off_deadline(now: u64, interval: u64, duration_ratio: u32) -> u64 {
    saturating_deadline(now, (interval * duration_ratio) / 254int)
}

/// The index of the first planned note whose note-on falls on `mb`.
pub open spec fn first_note_on_at(planned: Seq<PlannedNote>, mb: MeasureBeat) -> Option<int> {
    if exists|i: int|
        0 <= i < planned.len() && planned[i].note_on.measure_beat == mb && forall|j: int|
            0 <= j < i ==> (#[trigger] planned[j]).note_on.measure_beat != mb {
        Some(
            choose|i: int|
                0 <= i < planned.len() && planned[i].note_on.measure_beat == mb && forall|j: int|
                    0 <= j < i ==> (#[trigger] planned[j]).note_on.measure_beat != mb,
        )
    } else {
        None
    }
}

/// The note-on request that a beat makes: for the note planned on the beat
/// after `next_measure_beat`; an error when no sixteenth interval is known.
pub open spec fn beat_schedule(v: PlaybackView, now: u64, jitter: u32) -> Result<
    Option<ScheduleNoteOnMessage>,
    SchedulingError,
> {
    match first_note_on_at(v.planned, v.next_measure_beat.next()) {
        None => Ok(None),
        Some(i) => match v.interval.duration() {
            None => Err(SchedulingError::MissingSixteenthInterval),
            Some(t) => Ok(Some(
                ScheduleNoteOnMessage {
                    time: note_on_deadline(
                        now,
                        t,
                        v.ahead_or_behind_the_beat_ratio,
                        v.randomize_note_start_time_ratio,
                        jitter,
                    ),
                    planned_note_index: i as usize,
                },
            )),
        },
    }
}

/// Whether the beat after `next_measure_beat` is where the second-to-last planned note starts.
pub open spec fn is_pickup_to_last_note(v: PlaybackView) -> bool {
    v.planned.len() >= 2 && v.planned[v.planned.len() - 2].note_on.measure_beat == v.next_measure_beat.next()
}

/// The line and offset an overlapping plan would take.
pub open spec fn replan_choice(lines: Seq<Line>, v: PlaybackView, offset_start: u32) -> Option<(int, int)> {
    continuation_search(
        lines,
        offset_start as int,
        0,
        v.planned[v.planned.len() - 2].note_on.note,
        v.planned[v.planned.len() - 1].note_on.note,
        v.next_measure_beat.next().measure as int,
    )
}

/// The plan after a beat: when the next beat is the pickup to the
/// second-to-last note and a continuing line is found, the last two entries
/// are replaced by that line from the next beat on.
pub open spec fn planned_after_beat(lines: Seq<Line>, v: PlaybackView, offset_start: u32) -> PlaybackView {
    if is_pickup_to_last_note(v) {
        match replan_choice(lines, v, offset_start) {
            Some((li, o)) => PlaybackView {
                planned: drop_last_two(v.planned) + planned_line(
                    lines[li].notes@,
                    overlap_shift(lines[li].notes@[0], v.next_measure_beat.next()),
                    v.next_measure_beat.next().measure as int,
                    o,
                ),
                last_planned_line_index: li,
                last_planned_outside_of_the_key_offset: o,
                ..v
            },
            None => v,
        }
    } else {
        v
    }
}

/// Whether a beat moves the chord cursor: on the first downbeat, and on every pickup.
pub open spec fn beat_ticks_progression(chord_state: ProgressionChordIndexState, beat: BeatNumber) -> bool {
    (chord_state == ProgressionChordIndexState::HaventStarted && beat.sixteenth_note == 0)
        || beat.sixteenth_note == 15
}

/// The state after `fire_note_on` for entry `i`.
pub open spec fn planned_after_note_on(planned: Seq<PlannedNote>, i: int) -> Seq<PlannedNote> {
    let silenced = if i >= 1 && !planned[i - 1].has_note_off_fired {
        planned.update(i - 1, PlannedNote { has_note_off_fired: true, ..planned[i - 1] })
    } else {
        planned
    };
    silenced.update(i, PlannedNote { has_note_on_fired: true, ..silenced[i] })
}

/// The note-off that a note-on for entry `i` sends first: the previous
/// entry's, when it has not gone out.
pub open spec fn preceding_note_off(planned: Seq<PlannedNote>, i: int) -> Option<u8> {
    if i >= 1 && !planned[i - 1].has_note_off_fired {
        Some(planned[i - 1].note_off.note)
    } else {
        None
    }
}

/// The plan after the synchronous note-off that comes before the note-on of entry `i`.
pub open spec fn planned_after_preceding_note_off(planned: Seq<PlannedNote>, i: int) -> Seq<PlannedNote> {
    if i >= 1 && !planned[i - 1].has_note_off_fired {
        planned.update(i - 1, PlannedNote { has_note_off_fired: true, ..planned[i - 1] })
    } else {
        planned
    }
}

/// The state once a beat at `now` has updated the interval and the chord cursor.
pub open spec fn observed_beat(v: PlaybackView, beat: BeatNumber, now: u64, num_chords: nat) -> PlaybackView {
    PlaybackView {
        interval: v.interval.after_beat(now),
        chord_state: if beat_ticks_progression(v.chord_state, beat) {
            ProgressionState::ticked(v.chord_state, num_chords)
        } else {
            v.chord_state
        },
        ..v
    }
}

/// The whole effect of a beat on the state. Once the measure count is
/// exhausted, only the interval and the chord cursor move.
pub open spec fn view_after_beat(
    lines: Seq<Line>,
    v: PlaybackView,
    beat: BeatNumber,
    now: u64,
    offset_start: u32,
    num_chords: nat,
) -> PlaybackView {
    let observed = observed_beat(v, beat, now, num_chords);
    if v.next_measure_beat.measure < u32::MAX {
        PlaybackView {
            next_measure_beat: v.next_measure_beat.next(),
            ..planned_after_beat(lines, observed, offset_start)
        }
    } else {
        observed
    }
}

/// The note-on request that a beat makes.
pub open spec fn schedule_after_beat(
    v: PlaybackView,
    beat: BeatNumber,
    now: u64,
    jitter: u32,
    num_chords: nat,
) -> Result<Option<ScheduleNoteOnMessage>, SchedulingError> {
    if v.next_measure_beat.measure < u32::MAX {
        beat_schedule(observed_beat(v, beat, now, num_chords), now, jitter)
    } else {
        Ok(None)
    }
}

/// The note-off request for a note fired at `now`, when a duration ratio and an interval are known.
pub open spec fn note_off_request(v: PlaybackView, i: int, now: u64) -> Option<ScheduleNoteOffMessage> {
    match (v.duration_ratio, v.interval.duration()) {
        (Some(d), Some(t)) => Some(
            ScheduleNoteOffMessage { time: note_off_deadline(now, t, d), note_index: i as usize },
        ),
        _ => None,
    }
}

/// What firing the note-on of entry `i` at `now` hands back.
pub open spec fn note_on_firing(v: PlaybackView, i: int, now: u64) -> NoteOnFiring {
    if 0 <= i < v.planned.len() {
        NoteOnFiring {
            preceding_note_off: preceding_note_off(v.planned, i),
            note_on: Some(v.planned[i].note_on.note),
            schedule_note_off: note_off_request(v, i, now),
        }
    } else {
        NoteOnFiring { preceding_note_off: None, note_on: None, schedule_note_off: None }
    }
}

/// The state after firing the note-on of entry `i`.
pub open spec fn view_after_note_on(v: PlaybackView, i: int) -> PlaybackView {
    if 0 <= i < v.planned.len() {
        PlaybackView { planned: planned_after_note_on(v.planned, i), ..v }
    } else {
        v
    }
}

/// The note-off that firing entry `i` sends: none when it went out already.
pub open spec fn note_off_firing(v: PlaybackView, i: int) -> Option<u8> {
    if 0 <= i < v.planned.len() && !v.planned[i].has_note_off_fired {
        Some(v.planned[i].note_off.note)
    } else {
        None
    }
}

/// The state after firing the note-off of entry `i`.
pub open spec fn view_after_note_off(v: PlaybackView, i: int) -> PlaybackView {
    if 0 <= i < v.planned.len() && !v.planned[i].has_note_off_fired {
        PlaybackView {
            planned: v.planned.update(i, PlannedNote { has_note_off_fired: true, ..v.planned[i] }),
            ..v
        }
    } else {
        v
    }
}

/// The actions of a note-on firing, in order.
pub open spec fn firing_actions(f: NoteOnFiring) -> Seq<Action> {
    (match f.preceding_note_off {
        Some(p) => seq![Action::NoteOff(p)],
        None => Seq::empty(),
    }) + (match f.note_on {
        Some(p) => seq![Action::NoteOn(p)],
        None => Seq::empty(),
    }) + (match f.schedule_note_off {
        Some(m) => seq![Action::ScheduleNoteOff(m)],
        None => Seq::empty(),
    })
}

/// Whether every ratio a message carries lies within the whole.
pub open spec fn message_wf(message: CombinedMessage) -> bool {
    match message {
        CombinedMessage::DurationRatioMessage(x) => x <= 254,
        CombinedMessage::AheadOrBehindTheBeatRatioMessage(x) => x <= 254,
        CombinedMessage::RandomizeNoteStartTimeRatioMessage(x) => x <= 254,
        _ => true,
    }
}

/// The state after one message.
pub open spec fn view_after_message(
    lines: Seq<Line>,
    v: PlaybackView,
    message: CombinedMessage,
    now: u64,
    offset_start: u32,
    num_chords: nat,
) -> PlaybackView {
    match message {
        CombinedMessage::BeatMessage(b) => view_after_beat(lines, v, b, now, offset_start, num_chords),
        CombinedMessage::DurationRatioMessage(x) => PlaybackView { duration_ratio: Some(x), ..v },
        CombinedMessage::AheadOrBehindTheBeatRatioMessage(x) => PlaybackView {
            ahead_or_behind_the_beat_ratio: Some(x),
            ..v
        },
        CombinedMessage::RandomizeNoteStartTimeRatioMessage(x) => PlaybackView {
            randomize_note_start_time_ratio: Some(x),
            ..v
        },
        CombinedMessage::FireNoteOnMessage(m) => view_after_note_on(v, m.planned_note_index as int),
        CombinedMessage::FireNoteOffMessage(m) => view_after_note_off(v, m.note_index as int),
    }
}

/// What the caller is to do after one message, or the error a beat meets.
pub open spec fn actions_after_message(
    v: PlaybackView,
    message: CombinedMessage,
    now: u64,
    jitter: u32,
    num_chords: nat,
) -> Result<Seq<Action>, SchedulingError> {
    match message {
        CombinedMessage::BeatMessage(b) => match schedule_after_beat(v, b, now, jitter, num_chords) {
            Ok(Some(m)) => Ok(seq![Action::ScheduleNoteOn(m)]),
            Ok(None) => Ok(Seq::empty()),
            Err(e) => Err(e),
        },
        CombinedMessage::FireNoteOnMessage(m) => Ok(
            firing_actions(note_on_firing(v, m.planned_note_index as int, now)),
        ),
        CombinedMessage::FireNoteOffMessage(m) => match note_off_firing(v, m.note_index as int) {
            Some(p) => Ok(seq![Action::NoteOff(p)]),
            None => Ok(Seq::empty()),
        },
        _ => Ok(Seq::empty()),
    }
}

/// Whether the result of `handle` is the outcome `o`.
pub open spec fn handled_as(r: Result<Vec<Action>, SchedulingError>, o: Result<Seq<Action>, SchedulingError>) -> bool {
    match (r, o) {
        (Ok(actions), Ok(expected)) => actions@ == expected,
        (Err(e), Err(expected)) => e == expected,
        _ => false,
    }
}

proof fn lemma_first_continuing_line_sound(
    lines: Seq<Line>,
    offset: int,
    last_a: u8,
    last_b: u8,
    measure: int,
    from: int,
)
    ensures
        first_continuing_line(lines, offset, last_a, last_b, measure, from) matches Some((li, o))
            ==> 0 <= li < lines.len() && lines[li].fits_key(o) && plan_fits(lines[li].notes@, measure),
    decreases lines.len() - from,
{
    if 0 <= from < lines.len() {
        lemma_first_continuing_line_sound(lines, offset, last_a, last_b, measure, from + 1);
    }
}

proof fn lemma_continuation_search_sound(
    lines: Seq<Line>,
    offset_start: int,
    tried: int,
    last_a: u8,
    last_b: u8,
    measure: int,
)
    ensures
        continuation_search(lines, offset_start, tried, last_a, last_b, measure) matches Some((li, o))
            ==> 0 <= li < lines.len() && lines[li].fits_key(o) && plan_fits(lines[li].notes@, measure),
    decreases 12 - tried,
{
    if 0 <= tried < 12 {
        lemma_first_continuing_line_sound(lines, (offset_start + tried) % 12, last_a, last_b, measure, 0);
        lemma_continuation_search_sound(lines, offset_start, tried + 1, last_a, last_b, measure);
    }
}

proof fn lemma_planned_line_pitches(line: Line, shift: int, m0: int, offset: int)
    requires
        line.wf(),
        line.fits_key(offset),
    ensures
        planned_pitches_wf(planned_line(line.notes@, shift, m0, offset)),
{
    assert forall|k: int| 0 <= k < line.notes@.len() implies (#[trigger] planned_line(
        line.notes@,
        shift,
        m0,
        offset,
    )[k]).note_on.note < 128 by {
        assert(line.notes@[k].fits_key(offset));
    }
}

/// The plan a playback starts with: line `line_index` transposed by `offset`
/// from the second sixteenth of measure 0 on, or nothing when there is no
/// such line or it does not fit.
pub open spec fn initial_plan(lines: Seq<Line>, line_index: int, offset: int) -> Seq<PlannedNote> {
    if 0 <= line_index < lines.len() && lines[line_index].fits_key(offset) && plan_fits(
        lines[line_index].notes@,
        1,
    ) {
        planned_line(
            lines[line_index].notes@,
            0,
            initial_first_measure(
                lines[line_index].notes@[0],
                MeasureBeat { beat_number: BeatNumber { sixteenth_note: 1 }, measure: 0 },
            ),
            offset,
        )
    } else {
        Seq::empty()
    }
}

/// The first entry from `k` on whose note-on has not gone out, or the length.
pub open spec fn first_unplayed(planned: Seq<PlannedNote>, k: int) -> int
    decreases planned.len() - k,
{
    if k < 0 || k >= planned.len() {
        planned.len() as int
    } else if !planned[k].has_note_on_fired {
        k
    } else {
        first_unplayed(planned, k + 1)
    }
}

/// The first entry from `k` on whose note-off has not gone out, or the length.
pub open spec fn first_unstopped(planned: Seq<PlannedNote>, k: int) -> int
    decreases planned.len() - k,
{
    if k < 0 || k >= planned.len() {
        planned.len() as int
    } else if !planned[k].has_note_off_fired {
        k
    } else {
        first_unstopped(planned, k + 1)
    }
}

/// The index of the chord that a cursor state points at: the first one before the start.
pub open spec fn chord_index_of(state: ProgressionChordIndexState) -> int {
    match state {
        ProgressionChordIndexState::HaventStarted => 0,
        ProgressionChordIndexState::AtChordIndex(i) => i as int,
    }
}

/// A playback of a launcher's lines, from the first beat on.
pub struct Playback<'a> {
    lines: &'a Vec<Line>,
    planned_notes: PlannedNotes,
    next_measure_beat: MeasureBeat,
    progression_state: ProgressionState<'a>,
    duration_between_sixteenth_notes: DurationBetweenSixteenthNotes,
    duration_ratio: Option<u32>,
    ahead_or_behind_the_beat_ratio: Option<u32>,
    randomize_note_start_time_ratio: Option<u32>,
    last_planned_line_index: usize,
    last_planned_outside_of_the_key_offset: i32,
}

/// Every line can be planned: non-empty, with valid notes.
pub open spec fn lines_wf(lines: Seq<Line>) -> bool {
    forall|k: int| 0 <= k < lines.len() ==> (#[trigger] lines[k]).wf()
}

/// Every planned note sounds a MIDI note.
pub open spec fn planned_pitches_wf(planned: Seq<PlannedNote>) -> bool {
    forall|k: int|
        0 <= k < planned.len() ==> (#[trigger] planned[k]).note_on.note < 128 && planned[k].note_off.note
            < 128
}

/// A ratio, when set, lies within the whole.
pub open spec fn ratio_wf(r: Option<u32>) -> bool {
    r matches Some(x) ==> x <= 254
}

impl LineLauncher {
    pub closed spec fn lines(&self) -> Seq<Line> {
        self.lines@
    }

    pub closed spec fn chords(&self) -> Seq<crate::chord::Chord> {
        self.progression.chords@
    }

    pub closed spec fn wf(&self) -> bool {
        &&& lines_wf(self.lines())
        &&& self.progression.wf()
    }

    /// A launcher for the built-in outside-of-the-key lines over `progression`.
    pub fn from(progression: Progression) -> (r: LineLauncher)
        requires
            progression.wf(),
        ensures
            r.wf(),
            r.chords() == progression.chords@,
    {
        LineLauncher::new(Line::outside_of_the_key_lines(), progression)
    }

    /// A launcher for `lines` over `progression`.
    pub fn new(lines: Vec<Line>, progression: Progression) -> (r: LineLauncher)
        requires
            lines_wf(lines@),
            progression.wf(),
        ensures
            r.wf(),
            r.lines() == lines@,
            r.chords() == progression.chords@,
    {
        LineLauncher { lines, progression }
    }

    /// Starts a playback with line `line_index` transposed by
    /// `outside_of_the_key_offset`, planned from the second sixteenth of the
    /// first measure; with no such line, or one that does not fit, nothing is
    /// planned. The ratios start at their defaults.
    pub fn start_with<'a>(&'a self, line_index: usize, outside_of_the_key_offset: u32) -> (r: Playback<
        'a,
    >)
        requires
            self.wf(),
            outside_of_the_key_offset < 12,
        ensures
            r.wf(),
            r.lines() == self.lines(),
            r.chords() == self.chords(),
            r@.planned == initial_plan(self.lines(), line_index as int, outside_of_the_key_offset as int),
            earlier_notes_stopped(r@.planned),
            r@.next_measure_beat == (MeasureBeat {
                beat_number: BeatNumber { sixteenth_note: 0 },
                measure: 0,
            }),
            r@.chord_state == ProgressionChordIndexState::HaventStarted,
            r@.interval == DurationBetweenSixteenthNotes::Uninitialized,
            r@.duration_ratio == Some(254u32),
            r@.ahead_or_behind_the_beat_ratio == Some(127u32),
            r@.randomize_note_start_time_ratio == Some(0u32),
            r@.last_planned_line_index == line_index,
            r@.last_planned_outside_of_the_key_offset == outside_of_the_key_offset,
    {
        let mut planned_notes = PlannedNotes::new();
        let next_measure_beat = MeasureBeat::new(BeatNumber { sixteenth_note: 0 }, 0);
        let offset = outside_of_the_key_offset as i32;
        if line_index < self.lines.len() {
            let line = &self.lines[line_index];
            assert(line.wf());
            let first_eligible = next_measure_beat.incremented();
            if line.fits_key_exec(offset) && plan_fits_exec(line, 1) {
                proof {
                    assert(initial_first_measure(line.notes@[0], first_eligible) <= 1);
                    assert forall|k: int| 0 <= k < line.notes@.len() implies (initial_first_measure(
                        line.notes@[0],
                        first_eligible,
                    ) + k) * 16 + 15 + (#[trigger] line.notes@[k]).duration < 16 * (u32::MAX as int
                        + 1) by {
                        assert((1 + k) * 16 + 15 + line.notes@[k].duration < 16 * (u32::MAX as int + 1));
                    }
                }
                plan_initial_line(&mut planned_notes, line, offset, first_eligible);
            }
        }
        let r = Playback {
            lines: &self.lines,
            planned_notes,
            next_measure_beat,
            progression_state: ProgressionState::new(&self.progression),
            duration_between_sixteenth_notes: DurationBetweenSixteenthNotes::new(),
            duration_ratio: Some(DEFAULT_DURATION_RATIO),
            ahead_or_behind_the_beat_ratio: Some(DEFAULT_AHEAD_OR_BEHIND_RATIO),
            randomize_note_start_time_ratio: Some(DEFAULT_RANDOMIZE_RATIO),
            last_planned_line_index: line_index,
            last_planned_outside_of_the_key_offset: offset,
        };
        r
    }
}

impl LineLauncher {
    /// Starts a playback with a random line in a random key offset in `0..12`.
    pub fn start<'a>(&'a self) -> (r: Playback<'a>)
        requires
            self.wf(),
        ensures
            r.wf(),
            r.lines() == self.lines(),
            r.chords() == self.chords(),
            r@.next_measure_beat == (MeasureBeat {
                beat_number: BeatNumber { sixteenth_note: 0 },
                measure: 0,
            }),
            r@.chord_state == ProgressionChordIndexState::HaventStarted,
            r@.interval == DurationBetweenSixteenthNotes::Uninitialized,
            self.lines().len() > 0 ==> 0 <= r@.last_planned_line_index < self.lines().len(),
            0 <= r@.last_planned_outside_of_the_key_offset < 12,
            r@.planned == initial_plan(
                self.lines(),
                r@.last_planned_line_index,
                r@.last_planned_outside_of_the_key_offset,
            ),
            earlier_notes_stopped(r@.planned),
    {
        let bound: u32 = if self.lines.len() > u32::MAX as usize {
            u32::MAX
        } else {
            self.lines.len() as u32
        };
        let line_index = if bound == 0 {
            0
        } else {
            random_below(bound) as usize
        };
        let offset = random_below(12);
        self.start_with(line_index, offset)
    }
}

impl<'a> View for Playback<'a> {
    type V = PlaybackView;

    closed spec fn view(&self) -> PlaybackView {
        PlaybackView {
            planned: self.planned_notes@,
            next_measure_beat: self.next_measure_beat,
            chord_state: self.progression_state.state(),
            interval: self.duration_between_sixteenth_notes,
            duration_ratio: self.duration_ratio,
            ahead_or_behind_the_beat_ratio: self.ahead_or_behind_the_beat_ratio,
            randomize_note_start_time_ratio: self.randomize_note_start_time_ratio,
            last_planned_line_index: self.last_planned_line_index as int,
            last_planned_outside_of_the_key_offset: self.last_planned_outside_of_the_key_offset as int,
        }
    }
}

impl<'a> Playback<'a> {
    pub closed spec fn lines(&self) -> Seq<Line> {
        self.lines@
    }

    pub closed spec fn chords(&self) -> Seq<crate::chord::Chord> {
        self.progression_state.chords()
    }

    pub closed spec fn wf(&self) -> bool {
        &&& lines_wf(self.lines@)
        &&& self.progression_state.wf()
        &&& self.next_measure_beat.wf()
        &&& planned_pitches_wf(self.planned_notes@)
        &&& ratio_wf(self.duration_ratio)
        &&& ratio_wf(self.ahead_or_behind_the_beat_ratio)
        &&& ratio_wf(self.randomize_note_start_time_ratio)
        &&& -128 <= self.last_planned_outside_of_the_key_offset <= 127
    }

    /// The plan so far.
    pub fn planned_notes(&self) -> (r: &PlannedNotes)
        ensures
            r@ == self@.planned,
    {
        &self.planned_notes
    }

    /// What is playing: nothing when no note is planned, else the latest
    /// line and key offset, and the first entries whose note-on and note-off
    /// have not gone out.
    pub fn playing_state(&self) -> (r: PlayingState)
        requires
            self.wf(),
        ensures
            self@.planned.len() == 0 ==> r == PlayingState::NotPlaying,
            self@.planned.len() > 0 ==> r == (PlayingState::Playing {
                line_index: self@.last_planned_line_index as usize,
                next_note_index: first_unplayed(self@.planned, 0) as usize,
                pitch_offset: self@.last_planned_outside_of_the_key_offset as i8,
                next_note_off_index: first_unstopped(self@.planned, 0) as usize,
            }),
    {
        let len = self.planned_notes.len();
        if len == 0 {
            return PlayingState::NotPlaying;
        }
        let mut next_note_index: usize = 0;
        while next_note_index < len && self.planned_notes.get(next_note_index).has_note_on_fired
            invariant
                len == self@.planned.len(),
                next_note_index <= len,
                first_unplayed(self@.planned, 0) == first_unplayed(self@.planned, next_note_index as int),
            decreases len - next_note_index,
        {
            next_note_index = next_note_index + 1;
        }
        let mut next_note_off_index: usize = 0;
        while next_note_off_index < len && self.planned_notes.get(next_note_off_index).has_note_off_fired
            invariant
                len == self@.planned.len(),
                next_note_off_index <= len,
                first_unstopped(self@.planned, 0) == first_unstopped(
                    self@.planned,
                    next_note_off_index as int,
                ),
            decreases len - next_note_off_index,
        {
            next_note_off_index = next_note_off_index + 1;
        }
        PlayingState::Playing {
            line_index: self.last_planned_line_index,
            next_note_index,
            pitch_offset: self.last_planned_outside_of_the_key_offset as i8,
            next_note_off_index,
        }
    }

    /// The position of the next beat to come.
    pub fn next_measure_beat(&self) -> (r: MeasureBeat)
        ensures
            r == self@.next_measure_beat,
    {
        self.next_measure_beat
    }

    /// The chord of the current measure.
    pub fn current_chord(&self) -> (r: crate::chord::Chord)
        requires
            self.wf(),
        ensures
            r == self.chords()[chord_index_of(self@.chord_state)],
    {
        *self.progression_state.current_chord()
    }

    /// The latest estimate of the time between sixteenth notes.
    pub fn duration_between_sixteenth_notes(&self) -> (r: DurationBetweenSixteenthNotes)
        ensures
            r == self@.interval,
    {
        self.duration_between_sixteenth_notes
    }

    /// Takes in a beat at `now`: updates the interval and the chord cursor,
    /// asks for the note-on of the note planned on the following beat, re-plans
    /// when that beat is the pickup to the second-to-last note, and moves on.
    /// `jitter` (in `0..=RATIO_SCALE`) and `offset_start` (in `0..12`) are the
    /// random draws for the note-on time and the search for a continuing line.
    /// A note planned on the following beat while no sixteenth interval is
    /// known gives `MissingSixteenthInterval`; the state moves on all the same.
    pub fn on_beat(&mut self, beat_message: BeatNumber, now: u64, jitter: u32, offset_start: u32) -> (r:
        Result<Option<ScheduleNoteOnMessage>, SchedulingError>)
        requires
            old(self).wf(),
            jitter <= RATIO_SCALE,
            offset_start < 12,
        ensures
            final(self).wf(),
            final(self).lines() == old(self).lines(),
            final(self).chords() == old(self).chords(),
            final(self)@ == view_after_beat(
                old(self).lines(),
                old(self)@,
                beat_message,
                now,
                offset_start,
                old(self).chords().len(),
            ),
            r == schedule_after_beat(old(self)@, beat_message, now, jitter, old(self).chords().len()),
    {
        self.duration_between_sixteenth_notes = self.duration_between_sixteenth_notes.process_beat_message(
            &beat_message,
            now,
        );
        if (!self.progression_state.has_started() && beat_message.is_beginning_of_measure())
            || beat_message.is_next_beginning_of_measure() {
            self.progression_state.tick_measure();
        }
        if self.next_measure_beat.measure == u32::MAX {
            return Ok(None);
        }
        let target = self.next_measure_beat.incremented();
        let scheduled = self.possibly_schedule_note_on(target, now, jitter);
        if self.planned_notes.is_next_beat_message_pickup_to_the_last_note(target) {
            self.plan_overlap(target, offset_start);
        }
        self.next_measure_beat.increment();
        scheduled
    }

    /// The note-on request for the first note planned on `target`; an error
    /// when there is one but no interval is known.
    fn possibly_schedule_note_on(&self, target: MeasureBeat, now: u64, jitter: u32) -> (r: Result<
        Option<ScheduleNoteOnMessage>,
        SchedulingError,
    >)
        requires
            self.wf(),
            target == self@.next_measure_beat.next(),
            jitter <= RATIO_SCALE,
        ensures
            r == beat_schedule(self@, now, jitter),
    {
        let note_to_schedule_index = match self.planned_notes.position_of_note_on(target) {
            Some(index) => index,
            None => {
                proof {
                    if first_note_on_at(self@.planned, target) is Some {
                        let i = choose|i: int|
                            0 <= i < self@.planned.len() && self@.planned[i].note_on.measure_beat == target
                                && forall|j: int|
                                0 <= j < i ==> (#[trigger] self@.planned[j]).note_on.measure_beat != target;
                        assert(self@.planned[i].note_on.measure_beat == target);
                    }
                }
                return Ok(None);
            },
        };
        proof {
            let i = note_to_schedule_index as int;
            assert(0 <= i < self@.planned.len() && self@.planned[i].note_on.measure_beat == target
                && forall|j: int| 0 <= j < i ==> (#[trigger] self@.planned[j]).note_on.measure_beat != target);
            let c = choose|c: int|
                0 <= c < self@.planned.len() && self@.planned[c].note_on.measure_beat == target
                    && forall|j: int| 0 <= j < c ==> (#[trigger] self@.planned[j]).note_on.measure_beat != target;
            if c < i {
                assert(self@.planned[c].note_on.measure_beat != target);
            }
            if i < c {
                assert(self@.planned[i].note_on.measure_beat != target);
            }
            assert(first_note_on_at(self@.planned, target) == Some(i));
        }
        let interval = match self.duration_between_sixteenth_notes.get_duration() {
            Some(interval) => interval,
            None => return Err(SchedulingError::MissingSixteenthInterval),
        };
        Ok(Some(
            ScheduleNoteOnMessage {
                time: note_on_time(
                    now,
                    interval,
                    self.ahead_or_behind_the_beat_ratio,
                    self.randomize_note_start_time_ratio,
                    jitter,
                ),
                planned_note_index: note_to_schedule_index,
            },
        ))
    }

    /// Replaces the last two planned notes by a line that continues them from `target` on.
    fn plan_overlap(&mut self, target: MeasureBeat, offset_start: u32)
        requires
            old(self).wf(),
            target == old(self)@.next_measure_beat.next(),
            target.wf(),
            is_pickup_to_last_note(old(self)@),
            offset_start < 12,
        ensures
            final(self).wf(),
            final(self).lines() == old(self).lines(),
            final(self).chords() == old(self).chords(),
            final(self)@ == planned_after_beat(old(self).lines(), old(self)@, offset_start),
    {
        let len = self.planned_notes.len();
        let last_a = self.planned_notes.get(len - 2).note_on.note;
        let last_b = self.planned_notes.get(len - 1).note_on.note;
        assert(self@.planned[len - 2].note_on.note < 128);
        assert(self@.planned[len - 1].note_on.note < 128);
        match find_continuation(self.lines, offset_start, last_a, last_b, target.measure) {
            Some((line_index, offset)) => {
                proof {
                    lemma_continuation_search_sound(
                        self.lines@,
                        offset_start as int,
                        0,
                        last_a,
                        last_b,
                        target.measure as int,
                    );
                    lemma_planned_line_pitches(
                        self.lines@[line_index as int],
                        overlap_shift(self.lines@[line_index as int].notes@[0], target),
                        target.measure as int,
                        offset as int,
                    );
                }
                let ghost before = self.planned_notes@;
                plan_overlapping_line(&mut self.planned_notes, &self.lines[line_index], offset, target);
                self.last_planned_line_index = line_index;
                self.last_planned_outside_of_the_key_offset = offset;
                proof {
                    let added = planned_line(
                        self.lines@[line_index as int].notes@,
                        overlap_shift(self.lines@[line_index as int].notes@[0], target),
                        target.measure as int,
                        offset as int,
                    );
                    assert forall|k: int| 0 <= k < self.planned_notes@.len() implies (
                    #[trigger] self.planned_notes@[k]).note_on.note < 128
                        && self.planned_notes@[k].note_off.note < 128 by {
                        if k < drop_last_two(before).len() {
                            assert(self.planned_notes@[k] == before[k]);
                        } else {
                            assert(self.planned_notes@[k] == added[k - drop_last_two(before).len()]);
                        }
                    }
                }
            },
            None => {},
        }
    }

    /// Takes in one message at `now` and says what to do, in order.
    /// `jitter` and `offset_start` are the random draws a beat needs.
    pub fn handle(&mut self, message: CombinedMessage, now: u64, jitter: u32, offset_start: u32) -> (r:
        Result<Vec<Action>, SchedulingError>)
        requires
            old(self).wf(),
            message_wf(message),
            jitter <= RATIO_SCALE,
            offset_start < 12,
        ensures
            final(self).wf(),
            final(self).lines() == old(self).lines(),
            final(self).chords() == old(self).chords(),
            final(self)@ == view_after_message(
                old(self).lines(),
                old(self)@,
                message,
                now,
                offset_start,
                old(self).chords().len(),
            ),
            handled_as(r, actions_after_message(old(self)@, message, now, jitter, old(self).chords().len())),
    {
        let mut actions: Vec<Action> = Vec::new();
        match message {
            CombinedMessage::BeatMessage(beat_message) => {
                match self.on_beat(beat_message, now, jitter, offset_start) {
                    Ok(Some(m)) => actions.push(Action::ScheduleNoteOn(m)),
                    Ok(None) => {},
                    Err(e) => return Err(e),
                }
            },
            CombinedMessage::DurationRatioMessage(x) => self.set_duration_ratio(x),
            CombinedMessage::AheadOrBehindTheBeatRatioMessage(x) => {
                self.set_ahead_or_behind_the_beat_ratio(x)
            },
            CombinedMessage::RandomizeNoteStartTimeRatioMessage(x) => {
                self.set_randomize_note_start_time_ratio(x)
            },
            CombinedMessage::FireNoteOnMessage(m) => {
                let firing = self.fire_note_on(m.planned_note_index, now);
                if let Some(p) = firing.preceding_note_off {
                    actions.push(Action::NoteOff(p));
                }
                if let Some(p) = firing.note_on {
                    actions.push(Action::NoteOn(p));
                }
                if let Some(off) = firing.schedule_note_off {
                    actions.push(Action::ScheduleNoteOff(off));
                }
                proof {
                    assert(actions@ =~= firing_actions(firing));
                }
            },
            CombinedMessage::FireNoteOffMessage(m) => {
                if let Some(p) = self.fire_note_off(m.note_index) {
                    actions.push(Action::NoteOff(p));
                }
            },
        }
        proof {
            assert(actions_after_message(old(self)@, message, now, jitter, old(self).chords().len())
                matches Ok(expected) && actions@ =~= expected);
        }
        Ok(actions)
    }

    /// Takes in one message at `now`, drawing the random numbers it needs.
    pub fn handle_message(&mut self, message: CombinedMessage, now: u64) -> (r: Result<
        Vec<Action>,
        SchedulingError,
    >)
        requires
            old(self).wf(),
            message_wf(message),
        ensures
            final(self).wf(),
            final(self).lines() == old(self).lines(),
            final(self).chords() == old(self).chords(),
            exists|jitter: u32, offset_start: u32|
                jitter <= 254 && offset_start < 12 && final(self)@ == view_after_message(
                    old(self).lines(),
                    old(self)@,
                    message,
                    now,
                    offset_start,
                    old(self).chords().len(),
                ) && handled_as(
                    r,
                    actions_after_message(old(self)@, message, now, jitter, old(self).chords().len()),
                ),
    {
        let jitter = random_below(RATIO_SCALE + 1);
        let offset_start = random_below(12);
        self.handle(message, now, jitter, offset_start)
    }

    /// Fires the note-on of entry `planned_note_index` at `now`: first the
    /// note-off of the previous entry when it has not gone out, then the
    /// note-on, and asks for its note-off a duration ratio of the interval later.
    /// An index outside the plan does nothing.
    pub fn fire_note_on(&mut self, planned_note_index: usize, now: u64) -> (r: NoteOnFiring)
        requires
            old(self).wf(),
        ensures
            final(self).wf(),
            final(self).lines() == old(self).lines(),
            final(self).chords() == old(self).chords(),
            final(self)@ == view_after_note_on(old(self)@, planned_note_index as int),
            r == note_on_firing(old(self)@, planned_note_index as int, now),
    {
        if planned_note_index >= self.planned_notes.len() {
            return NoteOnFiring { preceding_note_off: None, note_on: None, schedule_note_off: None };
        }
        let preceding_note_off = self.fire_preceding_note_off_if_unfired(planned_note_index);
        let planned_note = self.planned_notes.get(planned_note_index);
        self.planned_notes.set_note_on_fired(planned_note_index);
        let schedule_note_off = match (self.duration_ratio, self.duration_between_sixteenth_notes.get_duration()) {
            (Some(duration_ratio), Some(interval)) => Some(
                ScheduleNoteOffMessage {
                    time: note_off_time(now, interval, duration_ratio),
                    note_index: planned_note_index,
                },
            ),
            _ => None,
        };
        proof {
            assert(self@.planned =~= planned_after_note_on(old(self)@.planned, planned_note_index as int));
        }
        NoteOnFiring { preceding_note_off, note_on: Some(planned_note.note_on.note), schedule_note_off }
    }

    /// Sends the note-off of the entry before `planned_note_index` when it has not gone out.
    fn fire_preceding_note_off_if_unfired(&mut self, planned_note_index: usize) -> (r: Option<u8>)
        requires
            old(self).wf(),
            planned_note_index < old(self)@.planned.len(),
        ensures
            final(self).wf(),
            final(self).lines() == old(self).lines(),
            final(self).chords() == old(self).chords(),
            final(self)@ == (PlaybackView {
                planned: planned_after_preceding_note_off(old(self)@.planned, planned_note_index as int),
                ..old(self)@
            }),
            r == preceding_note_off(old(self)@.planned, planned_note_index as int),
    {
        if planned_note_index == 0 {
            return None;
        }
        let previous_planned_note = self.planned_notes.get(planned_note_index - 1);
        if previous_planned_note.has_note_off_fired {
            return None;
        }
        self.planned_notes.set_note_off_fired(planned_note_index - 1);
        Some(previous_planned_note.note_off.note)
    }

    /// Fires the note-off of entry `note_index`, unless it went out already.
    /// An index outside the plan does nothing.
    pub fn fire_note_off(&mut self, note_index: usize) -> (r: Option<u8>)
        requires
            old(self).wf(),
        ensures
            final(self).wf(),
            final(self).lines() == old(self).lines(),
            final(self).chords() == old(self).chords(),
            final(self)@ == view_after_note_off(old(self)@, note_index as int),
            r == note_off_firing(old(self)@, note_index as int),
    {
        if note_index >= self.planned_notes.len() {
            return None;
        }
        let planned_note = self.planned_notes.get(note_index);
        if planned_note.has_note_off_fired {
            return None;
        }
        self.planned_notes.set_note_off_fired(note_index);
        Some(planned_note.note_off.note)
    }

    /// Sets the duration ratio: the share of a sixteenth between note-on and note-off.
    pub fn set_duration_ratio(&mut self, ratio: u32)
        requires
            old(self).wf(),
            ratio <= RATIO_SCALE,
        ensures
            final(self).wf(),
            final(self).lines() == old(self).lines(),
            final(self).chords() == old(self).chords(),
            final(self)@ == (PlaybackView { duration_ratio: Some(ratio), ..old(self)@ }),
    {
        self.duration_ratio = Some(ratio);
    }

    /// Sets the ahead-or-behind ratio: below the half is ahead of the beat, above it behind.
    pub fn set_ahead_or_behind_the_beat_ratio(&mut self, ratio: u32)
        requires
            old(self).wf(),
            ratio <= RATIO_SCALE,
        ensures
            final(self).wf(),
            final(self).lines() == old(self).lines(),
            final(self).chords() == old(self).chords(),
            final(self)@ == (PlaybackView { ahead_or_behind_the_beat_ratio: Some(ratio), ..old(self)@ }),
    {
        self.ahead_or_behind_the_beat_ratio = Some(ratio);
    }

    /// Sets the randomization ratio: the largest random shift of a note-on, as a share of a sixteenth.
    pub fn set_randomize_note_start_time_ratio(&mut self, ratio: u32)
        requires
            old(self).wf(),
            ratio <= RATIO_SCALE,
        ensures
            final(self).wf(),
            final(self).lines() == old(self).lines(),
            final(self).chords() == old(self).chords(),
            final(self)@ == (PlaybackView { randomize_note_start_time_ratio: Some(ratio), ..old(self)@ }),
    {
        self.randomize_note_start_time_ratio = Some(ratio);
    }
}

/// `now` plus `delay`, or the largest instant when that does not fit.
fn saturating_add_delay(now: u64, delay: u128) -> (r: u64)
    ensures
        r == saturating_deadline(now, delay as int),
{
    if delay > (u64::MAX - now) as u128 {
        u64::MAX
    } else {
        now + delay as u64
    }
}

/// When a note-on planned for the next beat is due.
pub fn note_on_time(now: u64, interval: u64, ahead: Option<u32>, randomize: Option<u32>, jitter: u32) -> (r:
    u64)
    requires
        ratio_wf(ahead),
        ratio_wf(randomize),
        jitter <= RATIO_SCALE,
    ensures
        r == note_on_deadline(now, interval, ahead, randomize, jitter),
{
    let a: i64 = match ahead {
        Some(a) => a as i64,
        None => DEFAULT_AHEAD_OR_BEHIND_RATIO as i64,
    };
    let randomize_ratio: i64 = match randomize {
        Some(x) => x as i64,
        None => 0,
    };
    let scale = RATIO_SCALE as i64;
    let j = jitter as i64;
    proof {
        assert(-254 <= 2 * j - scale <= 254);
        assert(-254 * 254 <= (2 * j - scale) * randomize_ratio <= 254 * 254) by (nonlinear_arith)
            requires -254 <= 2 * j - scale <= 254, 0 <= randomize_ratio <= 254;
    }
    let n: i64 = 2 * scale * scale + 2 * scale * (2 * a - scale) + (2 * j - scale) * randomize_ratio;
    let delay: u128 = if n <= 0 {
        0
    } else {
        proof {
            assert((interval as u128) * (n as u128) <= 0xffff_ffff_ffff_ffff * 0x10_0000) by (nonlinear_arith)
                requires interval <= 0xffff_ffff_ffff_ffff, 0 < n <= 0x10_0000;
        }
        (interval as u128) * (n as u128) / (DELAY_DENOMINATOR as u128)
    };
    saturating_add_delay(now, delay)
}

/// When the note-off of a note fired at `now` is due.
pub fn note_off_time(now: u64, interval: u64, duration_ratio: u32) -> (r: u64)
    requires
        duration_ratio <= RATIO_SCALE,
    ensures
        r == note_off_deadline(now, interval, duration_ratio),
{
    proof {
        assert((interval as u128) * (duration_ratio as u128) <= 0xffff_ffff_ffff_ffff * 254) by (nonlinear_arith)
            requires interval <= 0xffff_ffff_ffff_ffff, duration_ratio <= 254;
    }
    let delay = (interval as u128) * (duration_ratio as u128) / (RATIO_SCALE as u128);
    saturating_add_delay(now, delay)
}


/// Every played note but the latest one has been stopped.
pub open spec fn earlier_notes_stopped(planned: Seq<PlannedNote>) -> bool {
    forall|j: int, k: int|
        0 <= j < k < planned.len() && (#[trigger] planned[j]).has_note_on_fired
            && (#[trigger] planned[k]).has_note_on_fired ==> planned[j].has_note_off_fired
}

/// Entry `i` is the next to fire in plan order: no entry from `i` on has
/// fired, and the entry before it has.
pub open spec fn fires_in_order(planned: Seq<PlannedNote>, i: int) -> bool {
    &&& 0 <= i < planned.len()
    &&& forall|k: int| i <= k < planned.len() ==> !(#[trigger] planned[k]).has_note_on_fired
    &&& i >= 1 ==> planned[i - 1].has_note_on_fired
}

/// A note is sounding when its note-on went out and its note-off did not.
pub open spec fn is_sounding(note: PlannedNote) -> bool {
    note.has_note_on_fired && !note.has_note_off_fired
}

/// When notes fire in plan order, firing the note-on of entry `i` stops the
/// previous note if its own note-off has not come: afterwards every played
/// note before `i` has been stopped, and this stays so.
pub proof fn lemma_note_on_stops_earlier_notes(planned: Seq<PlannedNote>, i: int)
    requires
        earlier_notes_stopped(planned),
        fires_in_order(planned, i),
    ensures
        earlier_notes_stopped(planned_after_note_on(planned, i)),
        forall|j: int|
            0 <= j < i && (#[trigger] planned_after_note_on(planned, i)[j]).has_note_on_fired
                ==> planned_after_note_on(planned, i)[j].has_note_off_fired,
{
    let after = planned_after_note_on(planned, i);
    assert forall|j: int|
        0 <= j < i && (#[trigger] after[j]).has_note_on_fired implies after[j].has_note_off_fired by {
        if j < i - 1 {
            assert(planned[j].has_note_on_fired && planned[i - 1].has_note_on_fired);
        }
    }
    assert forall|j: int, k: int|
        0 <= j < k < after.len() && (#[trigger] after[j]).has_note_on_fired
            && (#[trigger] after[k]).has_note_on_fired implies after[j].has_note_off_fired by {
        if k == i {
            assert(after[j].has_note_off_fired);
        } else {
            assert(k < i);
            assert(planned[j].has_note_on_fired && planned[k].has_note_on_fired);
        }
    }
}

/// A note-off never undoes that the played notes before the latest are stopped.
pub proof fn lemma_note_off_keeps_earlier_notes_stopped(planned: Seq<PlannedNote>, i: int)
    requires
        earlier_notes_stopped(planned),
        0 <= i < planned.len(),
    ensures
        earlier_notes_stopped(
            planned.update(i, PlannedNote { has_note_off_fired: true, ..planned[i] }),
        ),
{
    let after = planned.update(i, PlannedNote { has_note_off_fired: true, ..planned[i] });
    assert forall|j: int, k: int|
        0 <= j < k < after.len() && (#[trigger] after[j]).has_note_on_fired
            && (#[trigger] after[k]).has_note_on_fired implies after[j].has_note_off_fired by {
        assert(planned[j].has_note_on_fired && planned[k].has_note_on_fired);
    }
}

/// When notes fire in plan order, no note is sounding at the moment the
/// note-on of entry `i` goes out (after the note-off that it sends first),
/// so no pitch is turned on twice without a note-off in between.
pub proof fn lemma_nothing_sounds_at_note_on(planned: Seq<PlannedNote>, i: int)
    requires
        earlier_notes_stopped(planned),
        fires_in_order(planned, i),
    ensures
        forall|k: int|
            0 <= k < planned.len() ==> !is_sounding(
                #[trigger] planned_after_preceding_note_off(planned, i)[k],
            ),
{
    let silenced = planned_after_preceding_note_off(planned, i);
    assert forall|k: int| 0 <= k < planned.len() implies !is_sounding(#[trigger] silenced[k]) by {
        if planned[k].has_note_on_fired && k != i - 1 {
            assert(k < i);
            assert(planned[k].has_note_on_fired && planned[i - 1].has_note_on_fired);
        }
    }
}


proof fn lemma_replan_keeps_earlier_notes_stopped(prefix: Seq<PlannedNote>, added: Seq<PlannedNote>)
    requires
        earlier_notes_stopped(prefix),
        forall|k: int| 0 <= k < added.len() ==> !(#[trigger] added[k]).has_note_on_fired,
    ensures
        earlier_notes_stopped(drop_last_two(prefix) + added),
{
    let kept = drop_last_two(prefix);
    let all = kept + added;
    assert forall|j: int, k: int|
        0 <= j < k < all.len() && (#[trigger] all[j]).has_note_on_fired
            && (#[trigger] all[k]).has_note_on_fired implies all[j].has_note_off_fired by {
        if k >= kept.len() {
            assert(all[k] == added[k - kept.len()]);
        } else {
            assert(all[j] == prefix[j] && all[k] == prefix[k]);
        }
    }
}

/// Over any run of messages in which note-ons come in plan order, every
/// played note but the latest has been stopped: beats (with their re-plans),
/// slider changes and note-offs keep it so, and a note-on of the next entry
/// in order stops the one before.
pub proof fn lemma_message_keeps_earlier_notes_stopped(
    lines: Seq<Line>,
    v: PlaybackView,
    message: CombinedMessage,
    now: u64,
    offset_start: u32,
    num_chords: nat,
)
    requires
        earlier_notes_stopped(v.planned),
        message matches CombinedMessage::FireNoteOnMessage(m) ==> (m.planned_note_index
            >= v.planned.len() || fires_in_order(v.planned, m.planned_note_index as int)),
    ensures
        earlier_notes_stopped(
            view_after_message(lines, v, message, now, offset_start, num_chords).planned,
        ),
{
    match message {
        CombinedMessage::BeatMessage(b) => {
            let observed = observed_beat(v, b, now, num_chords);
            if v.next_measure_beat.measure < u32::MAX && is_pickup_to_last_note(observed) {
                if let Some((li, o)) = replan_choice(lines, observed, offset_start) {
                    let target = observed.next_measure_beat.next();
                    let added = planned_line(
                        lines[li].notes@,
                        overlap_shift(lines[li].notes@[0], target),
                        target.measure as int,
                        o,
                    );
                    lemma_replan_keeps_earlier_notes_stopped(v.planned, added);
                }
            }
        },
        CombinedMessage::FireNoteOnMessage(m) => {
            if m.planned_note_index < v.planned.len() {
                lemma_note_on_stops_earlier_notes(v.planned, m.planned_note_index as int);
            }
        },
        CombinedMessage::FireNoteOffMessage(m) => {
            let i = m.note_index as int;
            if 0 <= i < v.planned.len() && !v.planned[i].has_note_off_fired {
                lemma_note_off_keeps_earlier_notes_stopped(v.planned, i);
            }
        },
        _ => {},
    }
}


/// The ahead-or-behind slider runs from ahead to behind: with no random
/// shift, the lowest ratio makes a note due at once, the half makes it due one
/// sixteenth later (on the beat), and a higher ratio never makes it due earlier.
pub proof fn lemma_note_on_deadline_follows_ahead_or_behind(
    now: u64,
    interval: u64,
    ahead: u32,
    later_ahead: u32,
    randomize: Option<u32>,
    jitter: u32,
)
    requires
        ahead <= later_ahead <= 254,
        randomize matches Some(x) ==> x <= 254,
        jitter <= 254,
    ensures
        note_on_deadline(now, interval, Some(0), Some(0), jitter) == now,
        note_on_deadline(now, interval, Some(127), Some(0), jitter) == saturating_deadline(
            now,
            interval as int,
        ),
        note_on_deadline(now, interval, Some(ahead), randomize, jitter) <= note_on_deadline(
            now,
            interval,
            Some(later_ahead),
            randomize,
            jitter,
        ),
{
    let r = match randomize {
        Some(x) => x as int,
        None => 0int,
    };
    let n1 = delay_numerator(ahead as int, r, jitter as int);
    let n2 = delay_numerator(later_ahead as int, r, jitter as int);
    let shift = (2 * jitter - 254) * r;
    assert(n1 == 2 * 254 * 254 + 2 * 254 * (2 * ahead - 254) + shift);
    assert(n2 == 2 * 254 * 254 + 2 * 254 * (2 * later_ahead - 254) + shift);
    assert(2 * 254 * (2 * ahead - 254) <= 2 * 254 * (2 * later_ahead - 254)) by (nonlinear_arith)
        requires ahead <= later_ahead;
    assert(n1 <= n2);
    assert((interval * (2 * 254 * 254)) / (2 * 254 * 254int) == interval) by {
        vstd::arithmetic::div_mod::lemma_div_multiples_vanish(interval as int, 129032int);
    }
    if n1 > 0 {
        assert(interval * n1 <= interval * n2) by (nonlinear_arith)
            requires n1 <= n2, interval >= 0;
        vstd::arithmetic::div_mod::lemma_div_is_ordered(interval * n1, interval * n2, 129032int);
    }
    if n2 > 0 {
        assert(interval * n2 >= 0) by (nonlinear_arith)
            requires n2 > 0, interval >= 0;
        vstd::arithmetic::div_mod::lemma_div_pos_is_pos(interval * n2, 129032int);
    }
}


/// Firing the note-on of entry `i` closes entry `i - 1`: its note-off has
/// gone out afterwards, and nothing else about it changes.
pub proof fn lemma_note_on_closes_preceding_note(planned: Seq<PlannedNote>, i: int)
    requires
        1 <= i < planned.len(),
    ensures
        planned_after_note_on(planned, i)[i - 1].has_note_off_fired,
        planned_after_note_on(planned, i)[i - 1].has_note_on_fired == planned[i - 1].has_note_on_fired,
        planned_after_note_on(planned, i)[i - 1].note_on == planned[i - 1].note_on,
        planned_after_note_on(planned, i)[i - 1].note_off == planned[i - 1].note_off,
        planned_after_note_on(planned, i)[i].has_note_on_fired,
{
}

/// One message of a run: the message, when it came, and the two random draws.
pub struct RunStep {
    pub message: CombinedMessage,
    pub now: u64,
    pub jitter: u32,
    pub offset_start: u32,
}

/// The state after a run of messages.
pub open spec fn view_after_run(lines: Seq<Line>, v: PlaybackView, steps: Seq<RunStep>, num_chords: nat) -> PlaybackView
    decreases steps.len(),
{
    if steps.len() == 0 {
        v
    } else {
        let last = steps.last();
        view_after_message(
            lines,
            view_after_run(lines, v, steps.drop_last(), num_chords),
            last.message,
            last.now,
            last.offset_start,
            num_chords,
        )
    }
}

/// Every note-on of a run is for the next entry in plan order (or outside the plan).
pub open spec fn note_ons_in_order(lines: Seq<Line>, v: PlaybackView, steps: Seq<RunStep>, num_chords: nat) -> bool {
    forall|k: int|
        0 <= k < steps.len() ==> ((#[trigger] steps[k]).message matches CombinedMessage::FireNoteOnMessage(m)
            ==> {
            let before = view_after_run(lines, v, steps.subrange(0, k), num_chords).planned;
            m.planned_note_index >= before.len() || fires_in_order(before, m.planned_note_index as int)
        })
}

/// Over a whole run whose note-ons come in plan order, starting where every
/// played note but the latest has been stopped (as at the start, where
/// nothing has played), every played note but the latest has been stopped
/// after every message, and no note sounds when a note-on goes out.
pub proof fn lemma_run_keeps_earlier_notes_stopped(
    lines: Seq<Line>,
    v: PlaybackView,
    steps: Seq<RunStep>,
    num_chords: nat,
)
    requires
        earlier_notes_stopped(v.planned),
        note_ons_in_order(lines, v, steps, num_chords),
    ensures
        earlier_notes_stopped(view_after_run(lines, v, steps, num_chords).planned),
        forall|k: int|
            0 <= k < steps.len() ==> ((#[trigger] steps[k]).message matches CombinedMessage::FireNoteOnMessage(m)
                ==> {
                let before = view_after_run(lines, v, steps.subrange(0, k), num_chords).planned;
                m.planned_note_index < before.len() ==> forall|j: int|
                    0 <= j < before.len() ==> !is_sounding(
                        #[trigger] planned_after_preceding_note_off(before, m.planned_note_index as int)[j],
                    )
            }),
    decreases steps.len(),
{
    if steps.len() > 0 {
        let prefix = steps.drop_last();
        assert forall|k: int| 0 <= k < prefix.len() implies ((#[trigger] prefix[k]).message matches CombinedMessage::FireNoteOnMessage(m)
            ==> {
            let before = view_after_run(lines, v, prefix.subrange(0, k), num_chords).planned;
            m.planned_note_index >= before.len() || fires_in_order(before, m.planned_note_index as int)
        }) by {
            assert(prefix[k] == steps[k]);
            assert(prefix.subrange(0, k) =~= steps.subrange(0, k));
        }
        lemma_run_keeps_earlier_notes_stopped(lines, v, prefix, num_chords);
        let last_index = steps.len() - 1;
        assert(steps.subrange(0, last_index) =~= prefix);
        let last = steps.last();
        assert(steps[last_index] == last);
        lemma_message_keeps_earlier_notes_stopped(
            lines,
            view_after_run(lines, v, prefix, num_chords),
            last.message,
            last.now,
            last.offset_start,
            num_chords,
        );
        assert forall|k: int|
            0 <= k < steps.len() implies ((#[trigger] steps[k]).message matches CombinedMessage::FireNoteOnMessage(m)
                ==> {
                let before = view_after_run(lines, v, steps.subrange(0, k), num_chords).planned;
                m.planned_note_index < before.len() ==> forall|j: int|
                    0 <= j < before.len() ==> !is_sounding(
                        #[trigger] planned_after_preceding_note_off(before, m.planned_note_index as int)[j],
                    )
            }) by {
            if k < last_index {
                assert(prefix[k] == steps[k]);
                assert(prefix.subrange(0, k) =~= steps.subrange(0, k));
            } else {
                if let CombinedMessage::FireNoteOnMessage(m) = steps[k].message {
                    let before = view_after_run(lines, v, steps.subrange(0, k), num_chords).planned;
                    if m.planned_note_index < before.len() {
                        lemma_nothing_sounds_at_note_on(before, m.planned_note_index as int);
                    }
                }
            }
        }
    }
}

} // verus!
