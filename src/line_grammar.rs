//! The text grammar of lines: notes such as `Bb3` or `F-1`, each followed by
//! one `.` per extra sixteenth it is held, and `-` for a sixteenth of rest,
//! separated by white space.
use vstd::prelude::*;

use vstd::string::{StringExecFns, StringSliceAdditionalSpecFns};

use crate::beat_number::BeatNumber;
use crate::grammar::{byte_at, is_space, pitch_at, skip_spaces, spaces_end, ParseError, Parsed};
use crate::line::{Line, LineNote};
use crate::pitch::{letter_semitones, Modifier, Pitch};

verus! {

/// One value of a line: a note with its octave and length, or a rest.
#[derive(PartialEq, Eq, Structural, Debug, Clone, Copy)]
pub enum LineValue {
    Note { pitch: Pitch, octave: i8, duration: u32 },
    Rest,
}

/// A decimal digit.
pub open spec fn digit_at(b: Seq<u8>, p: int) -> Option<(int, int)> {
    match byte_at(b, p) {
        Some(c) => if 0x30 <= c <= 0x39 {
            Some((c - 0x30, p + 1))
        } else {
            None
        },
        None => None,
    }
}

/// An octave: a digit, with an optional `-` before it.
pub open spec fn octave_at(b: Seq<u8>, p: int) -> Option<(int, int)> {
    if byte_at(b, p) == Some(0x2du8) {
        match digit_at(b, p + 1) {
            Some((d, q)) => Some((-d, q)),
            None => None,
        }
    } else {
        digit_at(b, p)
    }
}

/// Dots, each followed by optional white space: how many, and where they end.
/// `after_dot` says whether white space may be skipped here.
pub open spec fn dot_run(b: Seq<u8>, p: int, after_dot: bool) -> (int, int)
    decreases b.len() - p,
{
    if 0 <= p < b.len() && b[p] == 0x2e {
        let rest = dot_run(b, p + 1, true);
        (rest.0 + 1, rest.1)
    } else if after_dot && 0 <= p < b.len() && is_space(b[p]) {
        dot_run(b, p + 1, true)
    } else {
        (0, p)
    }
}

/// A note (pitch, octave, white space, then its dots) or a rest (`-` and white space).
pub open spec fn value_at(b: Seq<u8>, p: int) -> Parsed<LineValue> {
    match pitch_at(b, p) {
        Some((pitch, after_pitch)) => match octave_at(b, after_pitch) {
            None => Parsed::Failed,
            Some((octave, after_octave)) => {
                let dots = dot_run(b, spaces_end(b, after_octave), false);
                Parsed::Done(
                    LineValue::Note { pitch, octave: octave as i8, duration: (dots.0 + 1) as u32 },
                    dots.1 as usize,
                )
            },
        },
        None => if byte_at(b, p) == Some(0x2du8) {
            Parsed::Done(LineValue::Rest, spaces_end(b, p + 1) as usize)
        } else {
            Parsed::Declined
        },
    }
}

/// Values, as many as follow one another from `p` on.
pub open spec fn values_from(b: Seq<u8>, p: int) -> Option<(Seq<LineValue>, int)>
    decreases b.len() - p,
{
    if p < 0 || p > b.len() {
        None
    } else {
        match value_at(b, p) {
            Parsed::Declined => Some((Seq::empty(), p)),
            Parsed::Failed => None,
            Parsed::Done(v, r) => if p < r <= b.len() {
                match values_from(b, r as int) {
                    Some((rest, e)) => Some((seq![v] + rest, e)),
                    None => None,
                }
            } else {
                None
            },
        }
    }
}

/// At least one value.
pub open spec fn line_values_at(b: Seq<u8>, p: int) -> Option<(Seq<LineValue>, int)> {
    match value_at(b, p) {
        Parsed::Done(v, r) => match values_from(b, r as int) {
            Some((rest, e)) => Some((seq![v] + rest, e)),
            None => None,
        },
        _ => None,
    }
}

/// The MIDI note number of a pitch in an octave (C4 is 60), kept to 7 bits.
pub open spec fn note_number(pitch: Pitch, octave: int) -> int {
    ((octave + 1) * 12 + letter_semitones(pitch.letter) + match pitch.modifier {
        Modifier::Flat => -1int,
        Modifier::Natural => 0int,
    }) % 128
}

/// A note's octave is a single digit, possibly negative.
pub open spec fn octave_in_range(v: LineValue) -> bool {
    match v {
        LineValue::Note { octave, .. } => -9 <= octave <= 9,
        LineValue::Rest => true,
    }
}

/// How many sixteenths a value takes.
pub open spec fn value_length(v: LineValue) -> int {
    match v {
        LineValue::Note { duration, .. } => duration as int,
        LineValue::Rest => 1,
    }
}

/// Where the value after the first `k` ones starts.
pub open spec fn value_start(values: Seq<LineValue>, k: int) -> BeatNumber
    decreases k,
{
    if k <= 0 {
        BeatNumber { sixteenth_note: 0 }
    } else {
        value_start(values, k - 1).plus(value_length(values[k - 1]))
    }
}

/// The notes of the first `k` values, each at its start.
pub open spec fn line_notes_of(values: Seq<LineValue>, k: int) -> Seq<LineNote>
    decreases k,
{
    if k <= 0 {
        Seq::empty()
    } else {
        let before = line_notes_of(values, k - 1);
        match values[k - 1] {
            LineValue::Note { pitch, octave, duration } => before.push(
                LineNote {
                    start: value_start(values, k - 1),
                    duration,
                    note: note_number(pitch, octave as int) as u8,
                },
            ),
            LineValue::Rest => before,
        }
    }
}

/// The line that a text holds from `p` on, and where it ends.
pub open spec fn line_at(b: Seq<u8>, p: int) -> Option<(Seq<LineNote>, int)> {
    match line_values_at(b, p) {
        Some((values, e)) => Some((line_notes_of(values, values.len() as int), e)),
        None => None,
    }
}

proof fn lemma_dot_run_bounds(b: Seq<u8>, p: int, after_dot: bool)
    requires
        0 <= p <= b.len(),
    ensures
        0 <= dot_run(b, p, after_dot).0 <= dot_run(b, p, after_dot).1 - p,
        p <= dot_run(b, p, after_dot).1 <= b.len(),
    decreases b.len() - p,
{
    if p < b.len() && (b[p] == 0x2e || (after_dot && is_space(b[p]))) {
        lemma_dot_run_bounds(b, p + 1, true);
    }
}

/// Reads dots, each followed by optional white space, from `pos` on.
fn dots(input: &[u8], pos: usize) -> (r: (u32, usize))
    requires
        pos <= input@.len(),
        input@.len() < u32::MAX,
    ensures
        (r.0 as int, r.1 as int) == dot_run(input@, pos as int, false),
        pos <= r.1 <= input@.len(),
{
    let mut count: u32 = 0;
    let mut p = pos;
    let mut after_dot = false;
    while p < input.len() && (input[p] == 0x2e || (after_dot && (input[p] == 0x20 || input[p] == 0x09
        || input[p] == 0x0a || input[p] == 0x0b || input[p] == 0x0c || input[p] == 0x0d)))
        invariant
            pos <= p <= input@.len(),
            input@.len() < u32::MAX,
            count <= p - pos,
            dot_run(input@, pos as int, false) == (
            dot_run(input@, p as int, after_dot).0 + count, dot_run(input@, p as int, after_dot).1),
        decreases input@.len() - p,
    {
        if input[p] == 0x2e {
            count = count + 1;
        }
        after_dot = true;
        p = p + 1;
    }
    (count, p)
}

/// Reads one value at `pos`.
fn value(input: &[u8], pos: usize) -> (r: Parsed<LineValue>)
    requires
        pos <= input@.len(),
        input@.len() < u32::MAX,
    ensures
        r == value_at(input@, pos as int),
        r matches Parsed::Done(_, q) ==> pos < q <= input@.len(),
{
    match Pitch::parser(input, pos) {
        Some((pitch, after_pitch)) => {
            let negative = after_pitch < input.len() && input[after_pitch] == 0x2d;
            let digit_pos = if negative { after_pitch + 1 } else { after_pitch };
            if digit_pos >= input.len() || input[digit_pos] < 0x30 || input[digit_pos] > 0x39 {
                return Parsed::Failed;
            }
            let digit = (input[digit_pos] - 0x30) as i8;
            let octave = if negative { -digit } else { digit };
            let dots_start = skip_spaces(input, digit_pos + 1);
            let (count, after_dots) = dots(input, dots_start);
            proof {
                lemma_dot_run_bounds(input@, dots_start as int, false);
            }
            Parsed::Done(LineValue::Note { pitch, octave, duration: count + 1 }, after_dots)
        },
        None => {
            if pos < input.len() && input[pos] == 0x2d {
                Parsed::Done(LineValue::Rest, skip_spaces(input, pos + 1))
            } else {
                Parsed::Declined
            }
        },
    }
}

/// The MIDI note number of a pitch in an octave, kept to 7 bits.
fn midi_note(pitch: Pitch, octave: i8) -> (r: u8)
    requires
        -9 <= octave <= 9,
    ensures
        r == note_number(pitch, octave as int),
{
    let letter_value: i16 = pitch.letter_semitones_exec();
    let modifier_value: i16 = match pitch.modifier {
        Modifier::Flat => -1,
        Modifier::Natural => 0,
    };
    let value: i16 = (octave as i16 + 1) * 12 + letter_value + modifier_value;
    ((value + 256) % 128) as u8
}

impl Pitch {
    /// Semitones above C of the pitch's letter.
    pub fn letter_semitones_exec(&self) -> (r: i16)
        ensures
            r == letter_semitones(self.letter),
    {
        match self.letter {
            crate::pitch::Letter::C => 0,
            crate::pitch::Letter::D => 2,
            crate::pitch::Letter::E => 4,
            crate::pitch::Letter::F => 5,
            crate::pitch::Letter::G => 7,
            crate::pitch::Letter::A => 9,
            crate::pitch::Letter::B => 11,
        }
    }
}

/// Reads the values of a line at `pos`: at least one.
fn line_values(input: &[u8], pos: usize) -> (r: Option<(Vec<LineValue>, usize)>)
    requires
        pos <= input@.len(),
        input@.len() < u32::MAX,
    ensures
        r matches Some((values, q)) ==> line_values_at(input@, pos as int) == Some((values@, q as int)),
        r is None ==> line_values_at(input@, pos as int) is None,
{
    let mut values: Vec<LineValue> = Vec::new();
    let mut p = match value(input, pos) {
        Parsed::Done(v, r) => {
            values.push(v);
            r
        },
        _ => return None,
    };
    loop
        invariant
            p <= input@.len(),
            input@.len() < u32::MAX,
            line_values_at(input@, pos as int) == match values_from(input@, p as int) {
                Some((rest, e)) => Some((values@ + rest, e)),
                None => None,
            },
        decreases input@.len() - p,
    {
        match value(input, p) {
            Parsed::Done(v, r) => {
                proof {
                    match values_from(input@, r as int) {
                        Some((rest, e)) => {
                            assert(values@ + (seq![v] + rest) =~= values@.push(v) + rest);
                        },
                        None => {},
                    }
                }
                values.push(v);
                p = r;
            },
            Parsed::Declined => {
                proof {
                    assert(values@ + Seq::<LineValue>::empty() =~= values@);
                }
                return Some((values, p));
            },
            Parsed::Failed => {
                return None;
            },
        }
    }
}

/// The notes of a line's values, each at its start.
fn to_line(values: &Vec<LineValue>) -> (r: Line)
    requires
        forall|k: int| 0 <= k < values@.len() ==> octave_in_range(#[trigger] values@[k]),
    ensures
        r.notes@ == line_notes_of(values@, values@.len() as int),
{
    let mut line_notes: Vec<LineNote> = Vec::new();
    let mut start = BeatNumber { sixteenth_note: 0 };
    let mut k: usize = 0;
    while k < values.len()
        invariant
            k <= values@.len(),
            forall|j: int| 0 <= j < values@.len() ==> octave_in_range(#[trigger] values@[j]),
            line_notes@ == line_notes_of(values@, k as int),
            start == value_start(values@, k as int),
        decreases values@.len() - k,
    {
        match values[k] {
            LineValue::Note { pitch, octave, duration } => {
                line_notes.push(LineNote { start, duration, note: midi_note(pitch, octave) });
                start = start.add_sixteenths(duration);
            },
            LineValue::Rest => {
                start = start.add_sixteenths(1);
            },
        }
        k = k + 1;
    }
    Line::new(line_notes)
}

proof fn lemma_values_octaves(b: Seq<u8>, p: int)
    ensures
        values_from(b, p) matches Some((values, _)) ==> forall|k: int|
            0 <= k < values.len() ==> octave_in_range(#[trigger] values[k]),
    decreases b.len() - p,
{
    if 0 <= p <= b.len() {
        match value_at(b, p) {
            Parsed::Done(v, r) => {
                if p < r <= b.len() {
                    lemma_values_octaves(b, r as int);
                    match values_from(b, r as int) {
                        Some((rest, e)) => {
                            let all = seq![v] + rest;
                            assert forall|k: int| 0 <= k < all.len() implies octave_in_range(#[trigger] all[k]) by {
                                if k > 0 {
                                    assert(all[k] == rest[k - 1]);
                                }
                            }
                        },
                        None => {},
                    }
                }
            },
            _ => {},
        }
    }
}

impl Line {
    /// Reads a line at `pos`: at least one note or rest.
    pub fn parser(input: &[u8], pos: usize) -> (r: Option<(Line, usize)>)
        requires
            pos <= input@.len(),
            input@.len() < u32::MAX,
        ensures
            r matches Some((line, q)) ==> line_at(input@, pos as int) == Some((line.notes@, q as int)),
            r is None ==> line_at(input@, pos as int) is None,
    {
        match line_values(input, pos) {
            Some((values, q)) => {
                proof {
                    match value_at(input@, pos as int) {
                        Parsed::Done(v, r) => {
                            lemma_values_octaves(input@, r as int);
                            let found = values_from(input@, r as int)->0;
                            let rest = found.0;
                            assert forall|k: int| 0 <= k < values@.len() implies octave_in_range(#[trigger] values@[k]) by {
                                if k > 0 {
                                    assert(values@[k] == rest[k - 1]);
                                }
                            }
                        },
                        _ => {},
                    }
                }
                Some((to_line(&values), q))
            },
            None => None,
        }
    }

    /// Reads a line from the start of `string`; what follows is not read.
    pub fn parse(string: &str) -> (r: Result<Line, ParseError>)
        ensures
            string.spec_bytes().len() < u32::MAX ==> (r matches Ok(line) ==> line_at(string.spec_bytes(), 0) matches Some((notes, _))
                && line.notes@ == notes),
            string.spec_bytes().len() < u32::MAX ==> (r is Err ==> line_at(string.spec_bytes(), 0) is None),
            string.spec_bytes().len() >= u32::MAX ==> r is Err,
    {
        let bytes = string.as_bytes();
        if bytes.len() >= u32::MAX as usize {
            return Err(ParseError::Invalid);
        }
        match Line::parser(bytes, 0) {
            Some((line, _)) => Ok(line),
            None => Err(ParseError::Invalid),
        }
    }
}

/// Reads a line from the start of `line`.
pub fn parse_line(line: &str) -> (r: Result<Line, ParseError>)
    ensures
        line.spec_bytes().len() < u32::MAX ==> (r matches Ok(l) ==> line_at(line.spec_bytes(), 0) matches Some((notes, _))
            && l.notes@ == notes),
        line.spec_bytes().len() < u32::MAX ==> (r is Err ==> line_at(line.spec_bytes(), 0) is None),
        line.spec_bytes().len() >= u32::MAX ==> r is Err,
{
    Line::parse(line)
}


/// Reads each of `texts`, prefixed with `prefix`, as a line, and keeps those
/// that can be planned, in order.
fn playable_lines(prefix: &str, texts: &Vec<&str>) -> (r: Vec<Line>)
    ensures
        r@.len() <= texts@.len(),
        forall|k: int| 0 <= k < r@.len() ==> (#[trigger] r@[k]).wf(),
{
    let mut lines: Vec<Line> = Vec::new();
    let mut i: usize = 0;
    while i < texts.len()
        invariant
            i <= texts@.len(),
            lines@.len() <= i,
            forall|k: int| 0 <= k < lines@.len() ==> (#[trigger] lines@[k]).wf(),
        decreases texts@.len() - i,
    {
        let mut text = String::new();
        text.append(prefix);
        text.append(texts[i]);
        match Line::parse(text.as_str()) {
            Ok(line) => {
                if line.is_playable() {
                    lines.push(line);
                }
            },
            Err(_) => {},
        }
        i = i + 1;
    }
    lines
}

impl Line {
    /// The built-in lines that start on the downbeat.
    pub fn all() -> (r: Vec<Line>)
        ensures
            r@.len() <= 16,
            forall|k: int| 0 <= k < r@.len() ==> (#[trigger] r@[k]).wf(),
    {
        let texts = vec![
            "C4 F3 G3 Bb3 C4 Db4 Eb4 F4 E4 . . .",
            "- Db4 Bb3 Db4 C4 . Bb3 G3 F3 Bb3 F3 Gb3 G3 Gb3 F3 G3 E3 . . .",
            "C4 F3 G3 Bb3 C4 Db4 Bb3 Db4 C4 . .",
            "G4 Gb4 G4 A4 Bb4 C5 A4 Ab4 G4 C4 C5 .",
            "G4 Gb4 G4 A4 Bb4 C5 A4 Ab4 G4",
            "G4 Gb4 Ab4 Gb4 G4 Gb4 F4 E4 Eb4 .",
            "F4 . E4 . Eb4 E4 F4 Eb4 E4 C4 Bb3 G3 Bb3 C4 E4 F4 G4 .",
            "F4 . E4 . Eb4 E4 F4 Eb4 E4 Eb4 C4 .",
            "E4 Eb4 F4 Eb4 E4 Eb4 D4 Db4 C4 .",
            "E4 Eb4 F4 Eb4 E4 Eb4 D4 Db4 C4 C5 .",
            "C4 C5 Bb4 Db5 C5 Bb4 G4 F4 G4 .",
            "C4 C5 Bb4 Db5 C5 Bb4 G4 Gb4 Ab4 Gb4 G4 Gb4 F4 G4 E4 C4",
            "E4 C4 E4 F4 Gb4 Ab4 G4 F4 E4 .",
            "C4 B3 Db4 B3 C4 B3 Bb3 A3 Ab3 G3 Gb3 Ab3 G3 Gb3 F3 E3 Eb3 .",
            "C4 B3 Db4 B3 C4 B3 Bb3 A3 Ab3 G3 Gb3 Ab3 G3 Gb3 F3 G3 E3 .",
            "E4 Eb4 C4 G3 Bb3 Db4 B3 Db4 C4 .",
        ];
        playable_lines("", &texts)
    }

    /// The built-in lines that lead in from the last sixteenth of a measure:
    /// fifteen sixteenths of rest, then the melody.
    pub fn outside_of_the_key_lines() -> (r: Vec<Line>)
        ensures
            r@.len() <= 22,
            forall|k: int| 0 <= k < r@.len() ==> (#[trigger] r@[k]).wf(),
    {
        let texts = vec![
            "- - - A4 G4 E4 C4 E4 D4",
            "- - - F4 E4 C4 Bb3 C4 E4 G4 Bb4 D5 C5",
            "- - - F4 E4 C4 Bb3 C4 E4 G4 Bb4 D5 C5 Bb4 G4 Ab4 A4",
            "- - - Eb4 E4 G4 Bb4 G4 D5 C5 Bb4 A4 G4",
            "- - - D5 C5 G4 E4 Bb4 G4 F4 D4 Eb4 E4",
            "- - - D5 C5 G4 E4 Bb4 G4 F4 D4 F4 E4",
            "- - - Bb3 C4 Eb4 G4 Bb4 D5 Eb5 C5 Bb4 A4",
            "- - - Bb3 C4 Eb4 Gb4 G4 A4 Bb4 Gb4 A4 G4",
            "- - - Bb3 C4 Eb4 Gb4 G4 A4 Bb4 Gb4 A4 G4 Gb4 F4 E4 Eb4",
            "- - - D4 C4 A4 G4 D5 C5 A5 G5 F5 E5",
            "- - - D5 C5 Bb4 A4 Ab4 G4 Gb4 F4 Eb4 E4",
            "- - - D5 C5 Bb4 A4 Ab4 G4 Gb4 F4 G4 E4",
            "- - - E4 C4 G3 E4 F4 G4 A4 Bb4 A4 G4",
            "- - - E4 C4 G3 E4 F4 G4 A4 Bb4 A4 G4 A4 Bb4 D5 C5",
            "- - - E4 C4 G3 E4 F4 G4 A4 Bb4 A4 G4 Gb4 F4 G4 E4",
            "- - - E4 C4 G3 E4 F4 G4 A4 Bb4 A4 G4 Gb4 F4 Eb4 E4",
            "- - - E5 C5 G4 F4 Eb4 E4",
            "- - - E5 C5 G4 F4 Eb4 E4 C5 Bb4 A4 G4",
            "- - - E5 C5 G4 F4 Eb4 E4 C5 Bb4 D5 C5",
            "- - - E5 C5 G4 F4 Eb4 E4 C5 Bb4 D5 C5 Bb4 G4 F4 G4",
            "- - - Eb4 E4 C5 Bb4 D5 C5",
            "- - - Eb4 E4 C5 Bb4 D5 C5 Bb4 A4 Ab4 G4",
        ];
        playable_lines("- - - - - - - - - - - - ", &texts)
    }
}

} // verus!
