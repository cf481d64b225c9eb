//! Rendering note names, chords and progressions as text.
use vstd::prelude::*;

use vstd::string::StringExecFns;

use crate::chord::{Chord, Quality};
use crate::pitch::{Letter, Modifier, Pitch};
use crate::progression::{Progression, Song};

verus! {

pub open spec fn letter_text(letter: Letter) -> Seq<char> {
    match letter {
        Letter::A => seq!['A'],
        Letter::B => seq!['B'],
        Letter::C => seq!['C'],
        Letter::D => seq!['D'],
        Letter::E => seq!['E'],
        Letter::F => seq!['F'],
        Letter::G => seq!['G'],
    }
}

pub open spec fn modifier_text(modifier: Modifier) -> Seq<char> {
    match modifier {
        Modifier::Flat => seq!['b'],
        Modifier::Natural => Seq::empty(),
    }
}

pub open spec fn quality_text(quality: Quality) -> Seq<char> {
    match quality {
        Quality::Major => Seq::empty(),
        Quality::Minor => seq!['m'],
        Quality::MajorSeventh => seq!['M', '7'],
        Quality::Seventh => seq!['7'],
        Quality::MinorSeventh => seq!['m', '7'],
    }
}

pub open spec fn pitch_text(pitch: Pitch) -> Seq<char> {
    letter_text(pitch.letter) + modifier_text(pitch.modifier)
}

pub open spec fn chord_text(chord: Chord) -> Seq<char> {
    pitch_text(chord.pitch) + quality_text(chord.quality)
}

/// The chords' names, separated by single spaces.
pub open spec fn chords_text(chords: Seq<Chord>) -> Seq<char>
    decreases chords.len(),
{
    if chords.len() == 0 {
        Seq::empty()
    } else if chords.len() == 1 {
        chord_text(chords[0])
    } else {
        chords_text(chords.drop_last()) + seq![' '] + chord_text(chords.last())
    }
}

fn push_letter(s: &mut String, letter: Letter)
    ensures
        final(s)@ == old(s)@ + letter_text(letter),
{
    let text = match letter {
        Letter::A => "A",
        Letter::B => "B",
        Letter::C => "C",
        Letter::D => "D",
        Letter::E => "E",
        Letter::F => "F",
        Letter::G => "G",
    };
    proof {
        reveal_strlit("A");
        reveal_strlit("B");
        reveal_strlit("C");
        reveal_strlit("D");
        reveal_strlit("E");
        reveal_strlit("F");
        reveal_strlit("G");
    }
    s.append(text);
}

fn push_modifier(s: &mut String, modifier: Modifier)
    ensures
        final(s)@ == old(s)@ + modifier_text(modifier),
{
    let text = match modifier {
        Modifier::Flat => "b",
        Modifier::Natural => "",
    };
    proof {
        reveal_strlit("b");
        reveal_strlit("");
        assert(old(s)@ + Seq::<char>::empty() =~= old(s)@);
    }
    s.append(text);
}

fn push_quality(s: &mut String, quality: Quality)
    ensures
        final(s)@ == old(s)@ + quality_text(quality),
{
    let text = match quality {
        Quality::Major => "",
        Quality::Minor => "m",
        Quality::MajorSeventh => "M7",
        Quality::Seventh => "7",
        Quality::MinorSeventh => "m7",
    };
    proof {
        reveal_strlit("");
        reveal_strlit("m");
        reveal_strlit("M7");
        reveal_strlit("7");
        reveal_strlit("m7");
        assert(old(s)@ + Seq::<char>::empty() =~= old(s)@);
    }
    s.append(text);
}

fn push_chord(s: &mut String, chord: Chord)
    ensures
        final(s)@ == old(s)@ + chord_text(chord),
{
    push_letter(s, chord.pitch.letter);
    push_modifier(s, chord.pitch.modifier);
    push_quality(s, chord.quality);
    proof {
        assert(final(s)@ =~= old(s)@ + chord_text(chord));
    }
}

fn chords_to_string(chords: &Vec<Chord>) -> (r: String)
    ensures
        r@ == chords_text(chords@),
{
    let mut s = String::new();
    let mut i: usize = 0;
    while i < chords.len()
        invariant
            i <= chords@.len(),
            s@ == chords_text(chords@.subrange(0, i as int)),
        decreases chords@.len() - i,
    {
        let ghost before = s@;
        if i > 0 {
            proof {
                reveal_strlit(" ");
            }
            s.append(" ");
        }
        push_chord(&mut s, chords[i]);
        proof {
            let prefix = chords@.subrange(0, i + 1);
            assert(prefix.drop_last() =~= chords@.subrange(0, i as int));
            assert(prefix.last() == chords@[i as int]);
            if i == 0 {
                assert(s@ =~= chord_text(chords@[0]));
            } else {
                assert(s@ =~= before + seq![' '] + chord_text(chords@[i as int]));
            }
        }
        i = i + 1;
    }
    proof {
        assert(chords@.subrange(0, chords@.len() as int) =~= chords@);
    }
    s
}

impl Letter {
    /// The letter's name.
    pub fn to_string(&self) -> (r: String)
        ensures
            r@ == letter_text(*self),
    {
        let mut s = String::new();
        push_letter(&mut s, *self);
        proof {
            assert(s@ =~= letter_text(*self));
        }
        s
    }
}

impl Modifier {
    /// `b` for a flat, nothing for a natural.
    pub fn to_string(&self) -> (r: String)
        ensures
            r@ == modifier_text(*self),
    {
        let mut s = String::new();
        push_modifier(&mut s, *self);
        proof {
            assert(s@ =~= modifier_text(*self));
        }
        s
    }
}

impl Quality {
    /// The quality's suffix: nothing, `m`, `M7`, `7` or `m7`.
    pub fn to_string(&self) -> (r: String)
        ensures
            r@ == quality_text(*self),
    {
        let mut s = String::new();
        push_quality(&mut s, *self);
        proof {
            assert(s@ =~= quality_text(*self));
        }
        s
    }
}

impl Pitch {
    /// The letter followed by its modifier.
    pub fn to_string(&self) -> (r: String)
        ensures
            r@ == pitch_text(*self),
    {
        let mut s = String::new();
        push_letter(&mut s, self.letter);
        push_modifier(&mut s, self.modifier);
        proof {
            assert(s@ =~= pitch_text(*self));
        }
        s
    }
}

impl Chord {
    /// The pitch followed by the quality.
    pub fn to_string(&self) -> (r: String)
        ensures
            r@ == chord_text(*self),
    {
        let mut s = String::new();
        push_chord(&mut s, *self);
        proof {
            assert(s@ =~= chord_text(*self));
        }
        s
    }
}

impl Progression {
    /// The chords, separated by single spaces.
    pub fn to_string(&self) -> (r: String)
        ensures
            r@ == chords_text(self.chords@),
    {
        chords_to_string(&self.chords)
    }
}

impl Song {
    /// The chords, separated by single spaces.
    pub fn to_string(&self) -> (r: String)
        ensures
            r@ == chords_text(self.chords@),
    {
        chords_to_string(&self.chords)
    }
}

} // verus!
