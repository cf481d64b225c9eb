//! The text grammar of note names, chords and progressions, read from ASCII
//! bytes. Each rule starts at a position and gives what it read and where it
//! stopped; a rule that fails after reading some input fails the whole text.
use vstd::prelude::*;

use vstd::string::StringSliceAdditionalSpecFns;

use crate::chord::{Chord, Quality};
use crate::pitch::{Letter, Modifier, Pitch};
use crate::progression::{Progression, Song};

verus! {

/// What a rule read at a position.
#[derive(PartialEq, Eq, Structural, Debug, Clone, Copy)]
pub enum Parsed<T> {
    /// The value and the position after it.
    Done(T, usize),
    /// The rule does not apply here; nothing was read.
    Declined,
    /// The rule applied but the text is malformed.
    Failed,
}

/// Text that the grammar does not accept.
#[derive(PartialEq, Eq, Structural, Debug, Clone, Copy)]
pub enum ParseError {
    Invalid,
}

pub open spec fn byte_at(b: Seq<u8>, p: int) -> Option<u8> {
    if 0 <= p < b.len() {
        Some(b[p])
    } else {
        None
    }
}

pub open spec fn letter_of(c: u8) -> Option<Letter> {
    if c == 0x41 {
        Some(Letter::A)
    } else if c == 0x42 {
        Some(Letter::B)
    } else if c == 0x43 {
        Some(Letter::C)
    } else if c == 0x44 {
        Some(Letter::D)
    } else if c == 0x45 {
        Some(Letter::E)
    } else if c == 0x46 {
        Some(Letter::F)
    } else if c == 0x47 {
        Some(Letter::G)
    } else {
        None
    }
}

/// A letter from `A` to `G`.
pub open spec fn letter_at(b: Seq<u8>, p: int) -> Option<(Letter, int)> {
    match byte_at(b, p) {
        Some(c) => match letter_of(c) {
            Some(l) => Some((l, p + 1)),
            None => None,
        },
        None => None,
    }
}

/// An optional `b` for a flat.
pub open spec fn modifier_at(b: Seq<u8>, p: int) -> (Modifier, int) {
    if byte_at(b, p) == Some(0x62u8) {
        (Modifier::Flat, p + 1)
    } else {
        (Modifier::Natural, p)
    }
}

/// A letter and its modifier.
pub open spec fn pitch_at(b: Seq<u8>, p: int) -> Option<(Pitch, int)> {
    match letter_at(b, p) {
        Some((l, q)) => Some((Pitch { letter: l, modifier: modifier_at(b, q).0 }, modifier_at(b, q).1)),
        None => None,
    }
}

/// An optional quality: `M7`, `7`, `m7` or `m`; an `M` without its `7` is malformed.
pub open spec fn quality_at(b: Seq<u8>, p: int) -> Option<(Quality, int)> {
    if byte_at(b, p) == Some(0x4du8) {
        if byte_at(b, p + 1) == Some(0x37u8) {
            Some((Quality::MajorSeventh, p + 2))
        } else {
            None
        }
    } else if byte_at(b, p) == Some(0x37u8) {
        Some((Quality::Seventh, p + 1))
    } else if byte_at(b, p) == Some(0x6du8) {
        if byte_at(b, p + 1) == Some(0x37u8) {
            Some((Quality::MinorSeventh, p + 2))
        } else {
            Some((Quality::Minor, p + 1))
        }
    } else {
        Some((Quality::Major, p))
    }
}

/// A pitch and its quality.
pub open spec fn chord_at(b: Seq<u8>, p: int) -> Parsed<Chord> {
    match pitch_at(b, p) {
        None => Parsed::Declined,
        Some((pitch, q)) => match quality_at(b, q) {
            Some((quality, r)) => Parsed::Done(Chord { pitch, quality }, r as usize),
            None => Parsed::Failed,
        },
    }
}

/// ASCII white space.
pub open spec fn is_space(c: u8) -> bool {
    c == 0x20 || c == 0x09 || c == 0x0a || c == 0x0b || c == 0x0c || c == 0x0d
}

/// The first position from `p` on that is not white space.
pub open spec fn spaces_end(b: Seq<u8>, p: int) -> int
    decreases b.len() - p,
{
    if 0 <= p < b.len() && is_space(b[p]) {
        spaces_end(b, p + 1)
    } else {
        p
    }
}

/// The chords that follow a first one, each after optional white space. The
/// list ends where no chord starts right away; white space with no chord
/// after it is malformed.
pub open spec fn more_chords_at(b: Seq<u8>, p: int) -> Option<(Seq<Chord>, int)>
    decreases b.len() - p,
{
    if p < 0 || p > b.len() {
        None
    } else {
        let q = spaces_end(b, p);
        match chord_at(b, q) {
            Parsed::Done(c, r) => if r > p {
                match more_chords_at(b, r as int) {
                    Some((rest, e)) => Some((seq![c] + rest, e)),
                    None => None,
                }
            } else {
                None
            },
            Parsed::Declined => if q == p {
                Some((Seq::empty(), p))
            } else {
                None
            },
            Parsed::Failed => None,
        }
    }
}

/// Chords separated by white space, possibly none.
pub open spec fn chord_list_at(b: Seq<u8>, p: int) -> Option<(Seq<Chord>, int)> {
    match chord_at(b, p) {
        Parsed::Declined => Some((Seq::empty(), p)),
        Parsed::Failed => None,
        Parsed::Done(c, r) => match more_chords_at(b, r as int) {
            Some((rest, e)) => Some((seq![c] + rest, e)),
            None => None,
        },
    }
}

proof fn lemma_spaces_end_bounds(b: Seq<u8>, p: int)
    requires
        0 <= p <= b.len(),
    ensures
        p <= spaces_end(b, p) <= b.len(),
    decreases b.len() - p,
{
    if p < b.len() && is_space(b[p]) {
        lemma_spaces_end_bounds(b, p + 1);
    }
}

/// Skips white space from `pos` on.
pub fn skip_spaces(input: &[u8], pos: usize) -> (r: usize)
    requires
        pos <= input@.len(),
    ensures
        r == spaces_end(input@, pos as int),
        pos <= r <= input@.len(),
{
    let mut p = pos;
    while p < input.len() && (input[p] == 0x20 || input[p] == 0x09 || input[p] == 0x0a || input[p]
        == 0x0b || input[p] == 0x0c || input[p] == 0x0d)
        invariant
            pos <= p <= input@.len(),
            spaces_end(input@, pos as int) == spaces_end(input@, p as int),
        decreases input@.len() - p,
    {
        p = p + 1;
    }
    p
}

impl Letter {
    /// A letter from `A` to `G` at `pos`.
    pub fn parser(input: &[u8], pos: usize) -> (r: Option<(Letter, usize)>)
        ensures
            r matches Some((l, q)) ==> letter_at(input@, pos as int) == Some((l, q as int)),
            r is None ==> letter_at(input@, pos as int) is None,
    {
        if pos >= input.len() {
            return None;
        }
        let c = input[pos];
        let letter = if c == 0x41 {
            Letter::A
        } else if c == 0x42 {
            Letter::B
        } else if c == 0x43 {
            Letter::C
        } else if c == 0x44 {
            Letter::D
        } else if c == 0x45 {
            Letter::E
        } else if c == 0x46 {
            Letter::F
        } else if c == 0x47 {
            Letter::G
        } else {
            return None;
        };
        Some((letter, pos + 1))
    }
}

impl Modifier {
    /// An optional `b` at `pos`.
    pub fn parser(input: &[u8], pos: usize) -> (r: (Modifier, usize))
        requires
            pos <= input@.len(),
        ensures
            (r.0, r.1 as int) == modifier_at(input@, pos as int),
    {
        if pos < input.len() && input[pos] == 0x62 {
            (Modifier::Flat, pos + 1)
        } else {
            (Modifier::Natural, pos)
        }
    }
}

impl Pitch {
    /// A letter and its modifier at `pos`.
    pub fn parser(input: &[u8], pos: usize) -> (r: Option<(Pitch, usize)>)
        ensures
            r matches Some((p, q)) ==> pitch_at(input@, pos as int) == Some((p, q as int)),
            r is None ==> pitch_at(input@, pos as int) is None,
    {
        let (letter, after_letter) = match Letter::parser(input, pos) {
            Some(found) => found,
            None => return None,
        };
        let (modifier, after_modifier) = Modifier::parser(input, after_letter);
        Some((Pitch::new(letter, modifier), after_modifier))
    }
}

impl Quality {
    /// An optional quality at `pos`; `None` when an `M` lacks its `7`.
    pub fn parser(input: &[u8], pos: usize) -> (r: Option<(Quality, usize)>)
        requires
            pos <= input@.len(),
        ensures
            r matches Some((x, q)) ==> quality_at(input@, pos as int) == Some((x, q as int)),
            r is None ==> quality_at(input@, pos as int) is None,
    {
        let next_is_seven = pos < input.len() && pos + 1 < input.len() && input[pos + 1] == 0x37;
        if pos < input.len() && input[pos] == 0x4d {
            if next_is_seven {
                Some((Quality::MajorSeventh, pos + 2))
            } else {
                None
            }
        } else if pos < input.len() && input[pos] == 0x37 {
            Some((Quality::Seventh, pos + 1))
        } else if pos < input.len() && input[pos] == 0x6d {
            if next_is_seven {
                Some((Quality::MinorSeventh, pos + 2))
            } else {
                Some((Quality::Minor, pos + 1))
            }
        } else {
            Some((Quality::Major, pos))
        }
    }
}

impl Chord {
    /// A pitch and its quality at `pos`.
    pub fn parser(input: &[u8], pos: usize) -> (r: Parsed<Chord>)
        ensures
            r == chord_at(input@, pos as int),
            r matches Parsed::Done(_, q) ==> pos < q <= input@.len(),
    {
        let (pitch, after_pitch) = match Pitch::parser(input, pos) {
            Some(found) => found,
            None => return Parsed::Declined,
        };
        match Quality::parser(input, after_pitch) {
            Some((quality, after_quality)) => Parsed::Done(Chord::new(pitch, quality), after_quality),
            None => Parsed::Failed,
        }
    }
}

/// Reads chords separated by white space at `pos`, possibly none.
fn chord_list(input: &[u8], pos: usize) -> (r: Option<(Vec<Chord>, usize)>)
    requires
        pos <= input@.len(),
    ensures
        r matches Some((chords, q)) ==> chord_list_at(input@, pos as int) == Some((chords@, q as int)),
        r is None ==> chord_list_at(input@, pos as int) is None,
{
    let mut chords: Vec<Chord> = Vec::new();
    let mut p = match Chord::parser(input, pos) {
        Parsed::Declined => return Some((chords, pos)),
        Parsed::Failed => return None,
        Parsed::Done(c, r) => {
            chords.push(c);
            r
        },
    };
    let ghost first = chords@;
    loop
        invariant
            p <= input@.len(),
            chords@.len() >= 1,
            chord_list_at(input@, pos as int) == match more_chords_at(input@, p as int) {
                Some((rest, e)) => Some((chords@ + rest, e)),
                None => None,
            },
        decreases input@.len() - p,
    {
        let q = skip_spaces(input, p);
        match Chord::parser(input, q) {
            Parsed::Done(c, r) => {
                proof {
                    assert(r > p);
                    match more_chords_at(input@, r as int) {
                        Some((rest, e)) => {
                            assert(chords@ + (seq![c] + rest) =~= chords@.push(c) + rest);
                        },
                        None => {},
                    }
                }
                chords.push(c);
                p = r;
            },
            Parsed::Declined => {
                if q == p {
                    proof {
                        assert(chords@ + Seq::<Chord>::empty() =~= chords@);
                    }
                    return Some((chords, p));
                }
                return None;
            },
            Parsed::Failed => {
                return None;
            },
        }
    }
}

impl Progression {
    /// Chords separated by white space at `pos`, possibly none.
    pub fn parser(input: &[u8], pos: usize) -> (r: Option<(Progression, usize)>)
        requires
            pos <= input@.len(),
        ensures
            r matches Some((x, q)) ==> chord_list_at(input@, pos as int) == Some((x.chords@, q as int)),
            r is None ==> chord_list_at(input@, pos as int) is None,
    {
        match chord_list(input, pos) {
            Some((chords, q)) => Some((Progression { chords }, q)),
            None => None,
        }
    }

    /// Reads a progression from the start of `string`; what follows the
    /// last chord is not read.
    pub fn parse(string: &str) -> (r: Result<Progression, ParseError>)
        ensures
            r matches Ok(x) ==> chord_list_at(string.spec_bytes(), 0) matches Some((chords, _))
                && x.chords@ == chords,
            r is Err ==> chord_list_at(string.spec_bytes(), 0) is None,
    {
        match Progression::parser(string.as_bytes(), 0) {
            Some((progression, _)) => Ok(progression),
            None => Err(ParseError::Invalid),
        }
    }
}

impl Song {
    /// Chords separated by white space at `pos`, possibly none.
    pub fn parser(input: &[u8], pos: usize) -> (r: Option<(Song, usize)>)
        requires
            pos <= input@.len(),
        ensures
            r matches Some((x, q)) ==> chord_list_at(input@, pos as int) == Some((x.chords@, q as int)),
            r is None ==> chord_list_at(input@, pos as int) is None,
    {
        match chord_list(input, pos) {
            Some((chords, q)) => Some((Song { chords }, q)),
            None => None,
        }
    }
}

} // verus!
