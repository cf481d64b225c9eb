//! Choosing a line and key that continue the previous line within a half step.
use vstd::prelude::*;

use crate::line::Line;
use crate::planner::{plan_fits, step, step_spec};

verus! {

/// Whether `note_a` lies within a half step of `note_b` up to whole octaves,
/// and the octave shift (in semitones) that brings it nearest to `note_b`.
pub open spec fn half_step_spec(note_a: int, note_b: int) -> (bool, int) {
    let raw_difference = note_a - note_b;
    let difference_within_same_octave = raw_difference % 12;
    if difference_within_same_octave == 0 {
        (true, -raw_difference)
    } else if difference_within_same_octave == 1 {
        (true, -(raw_difference - 1))
    } else if difference_within_same_octave == 11 {
        (true, -(raw_difference + 1))
    } else {
        (false, 0)
    }
}

/// Whether `note_a` lies within a half step of `note_b` up to whole octaves,
/// and the octave shift (in semitones) that brings it nearest to `note_b`.
pub fn get_is_within_a_half_step(note_a: u8, note_b: u8) -> (r: (bool, i8))
    requires
        note_a < 128,
        note_b < 128,
    ensures
        r.0 == half_step_spec(note_a as int, note_b as int).0,
        r.1 == half_step_spec(note_a as int, note_b as int).1,
{
    let raw_difference: i16 = note_a as i16 - note_b as i16;
    let difference_within_same_octave: i16 = (raw_difference + 132) % 12;
    proof {
        assert(difference_within_same_octave == raw_difference % 12);
    }
    if difference_within_same_octave == 0 {
        return (true, (-raw_difference) as i8);
    }
    if difference_within_same_octave == 1 {
        return (true, (-(raw_difference - 1)) as i8);
    }
    if difference_within_same_octave == 11 {
        return (true, (-(raw_difference + 1)) as i8);
    }
    (false, 0)
}

/// The key offset, with its octave shift, under which `line` continues the
/// notes `last_a`, `last_b`: its first two notes, transposed by `offset`, lie
/// within a half step of them with one same octave shift, and the whole line
/// fits in MIDI range and in the measure count from `measure` on.
pub open spec fn continuation_offset(line: Line, offset: int, last_a: u8, last_b: u8, measure: int) -> Option<int> {
    let notes = line.notes@;
    if notes.len() >= 2 && step_spec(notes[0].note, offset) is Some && step_spec(notes[1].note, offset) is Some {
        let first = half_step_spec(step_spec(notes[0].note, offset)->0 as int, last_a as int);
        let second = half_step_spec(step_spec(notes[1].note, offset)->0 as int, last_b as int);
        if first.0 && second.0 && first.1 == second.1 && line.fits_key(offset + first.1)
            && plan_fits(notes, measure) {
            Some(offset + first.1)
        } else {
            None
        }
    } else {
        None
    }
}

/// The first line from index `from` on that continues the notes under `offset`.
pub open spec fn first_continuing_line(
    lines: Seq<Line>,
    offset: int,
    last_a: u8,
    last_b: u8,
    measure: int,
    from: int,
) -> Option<(int, int)>
    decreases lines.len() - from,
{
    if from < 0 || from >= lines.len() {
        None
    } else {
        match continuation_offset(lines[from], offset, last_a, last_b, measure) {
            Some(o) => Some((from, o)),
            None => first_continuing_line(lines, offset, last_a, last_b, measure, from + 1),
        }
    }
}

/// Tries the twelve key offsets in turn from `offset_start` (wrapping), and
/// gives the first line and adjusted offset found.
pub open spec fn continuation_search(
    lines: Seq<Line>,
    offset_start: int,
    tried: int,
    last_a: u8,
    last_b: u8,
    measure: int,
) -> Option<(int, int)>
    decreases 12 - tried,
{
    if tried < 0 || tried >= 12 {
        None
    } else {
        match first_continuing_line(lines, (offset_start + tried) % 12, last_a, last_b, measure, 0) {
            Some(found) => Some(found),
            None => continuation_search(lines, offset_start, tried + 1, last_a, last_b, measure),
        }
    }
}

/// Whether the plan of `notes` from measure `m0` on keeps its measures in range.
pub fn plan_fits_exec(line: &Line, m0: u32) -> (r: bool)
    ensures
        r == plan_fits(line.notes@, m0 as int),
{
    let mut k: usize = 0;
    while k < line.notes.len()
        invariant
            k <= line.notes@.len(),
            forall|j: int|
                0 <= j < k ==> (m0 + j) * 16 + 15 + (#[trigger] line.notes@[j]).duration < 16 * (
                u32::MAX as int + 1),
        decreases line.notes@.len() - k,
    {
        let end = (m0 as u128 + k as u128) * 16 + 15 + line.notes[k].duration as u128;
        if end >= 16 * (u32::MAX as u128 + 1) {
            return false;
        }
        k = k + 1;
    }
    true
}

/// The key offset under which `line` continues `last_a`, `last_b`, if any.
pub fn continuation_offset_exec(line: &Line, offset: i32, last_a: u8, last_b: u8, measure: u32) -> (r:
    Option<i32>)
    requires
        line.wf(),
        0 <= offset < 12,
        last_a < 128,
        last_b < 128,
    ensures
        r matches Some(o) ==> continuation_offset(*line, offset as int, last_a, last_b, measure as int) == Some(o as int),
        r is None ==> continuation_offset(*line, offset as int, last_a, last_b, measure as int) is None,
{
    if line.notes.len() < 2 {
        return None;
    }
    let first_note = match step(line.notes[0].note, offset) {
        Some(n) => n,
        None => return None,
    };
    let second_note = match step(line.notes[1].note, offset) {
        Some(n) => n,
        None => return None,
    };
    let (first_within, first_octave_adjustment) = get_is_within_a_half_step(first_note, last_a);
    if !first_within {
        return None;
    }
    let (second_within, second_octave_adjustment) = get_is_within_a_half_step(second_note, last_b);
    if !second_within || first_octave_adjustment != second_octave_adjustment {
        return None;
    }
    let adjusted = offset + first_octave_adjustment as i32;
    if !line.fits_key_exec(adjusted) || !plan_fits_exec(line, measure) {
        return None;
    }
    Some(adjusted)
}

proof fn lemma_first_continuing_line_skips(
    lines: Seq<Line>,
    offset: int,
    last_a: u8,
    last_b: u8,
    measure: int,
    k: int,
)
    requires
        0 <= k < lines.len(),
        continuation_offset(lines[k], offset, last_a, last_b, measure) is None,
    ensures
        first_continuing_line(lines, offset, last_a, last_b, measure, k) == first_continuing_line(
            lines,
            offset,
            last_a,
            last_b,
            measure,
            k + 1,
        ),
{
}

/// The first line (and its adjusted offset) that continues `last_a`, `last_b` under `offset`.
pub fn first_continuing_line_exec(
    lines: &Vec<Line>,
    offset: i32,
    last_a: u8,
    last_b: u8,
    measure: u32,
) -> (r: Option<(usize, i32)>)
    requires
        forall|k: int| 0 <= k < lines@.len() ==> (#[trigger] lines@[k]).wf(),
        0 <= offset < 12,
        last_a < 128,
        last_b < 128,
    ensures
        r matches Some(found) ==> first_continuing_line(lines@, offset as int, last_a, last_b, measure as int, 0)
            == Some((found.0 as int, found.1 as int)),
        r is None ==> first_continuing_line(lines@, offset as int, last_a, last_b, measure as int, 0) is None,
{
    let mut k: usize = 0;
    while k < lines.len()
        invariant
            forall|j: int| 0 <= j < lines@.len() ==> (#[trigger] lines@[j]).wf(),
            0 <= offset < 12,
            last_a < 128,
            last_b < 128,
            k <= lines@.len(),
            first_continuing_line(lines@, offset as int, last_a, last_b, measure as int, 0)
                == first_continuing_line(lines@, offset as int, last_a, last_b, measure as int, k as int),
        decreases lines@.len() - k,
    {
        assert(lines@[k as int].wf());
        match continuation_offset_exec(&lines[k], offset, last_a, last_b, measure) {
            Some(o) => {
                return Some((k, o));
            },
            None => {
                proof {
                    lemma_first_continuing_line_skips(lines@, offset as int, last_a, last_b, measure as int, k as int);
                }
            },
        }
        k = k + 1;
    }
    None
}

/// Tries the twelve key offsets from `offset_start` on, wrapping, and gives the
/// first line that continues `last_a`, `last_b`, with its adjusted offset.
pub fn find_continuation(
    lines: &Vec<Line>,
    offset_start: u32,
    last_a: u8,
    last_b: u8,
    measure: u32,
) -> (r: Option<(usize, i32)>)
    requires
        forall|k: int| 0 <= k < lines@.len() ==> (#[trigger] lines@[k]).wf(),
        offset_start < 12,
        last_a < 128,
        last_b < 128,
    ensures
        r matches Some(found) ==> continuation_search(lines@, offset_start as int, 0, last_a, last_b, measure as int)
            == Some((found.0 as int, found.1 as int)),
        r is None ==> continuation_search(lines@, offset_start as int, 0, last_a, last_b, measure as int) is None,
{
    let mut tried: u32 = 0;
    while tried < 12
        invariant
            forall|k: int| 0 <= k < lines@.len() ==> (#[trigger] lines@[k]).wf(),
            offset_start < 12,
            last_a < 128,
            last_b < 128,
            tried <= 12,
            continuation_search(lines@, offset_start as int, 0, last_a, last_b, measure as int)
                == continuation_search(lines@, offset_start as int, tried as int, last_a, last_b, measure as int),
        decreases 12 - tried,
    {
        let offset = ((offset_start + tried) % 12) as i32;
        match first_continuing_line_exec(lines, offset, last_a, last_b, measure) {
            Some(found) => {
                return Some(found);
            },
            None => {},
        }
        tried = tried + 1;
    }
    None
}

} // verus!
