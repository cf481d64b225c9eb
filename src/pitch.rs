//! Note names: a letter, an optional flat, and the pitch class they name.
use vstd::prelude::*;

verus! {

#[derive(PartialEq, Eq, Structural, Debug, Clone, Copy)]
pub enum Letter {
    A,
    B,
    C,
    D,
    E,
    F,
    G,
}

#[derive(PartialEq, Eq, Structural, Debug, Clone, Copy)]
pub enum Modifier {
    Flat,
    Natural,
}

#[derive(PartialEq, Eq, Structural, Debug, Clone, Copy)]
pub struct Pitch {
    pub letter: Letter,
    pub modifier: Modifier,
}

/// Semitones above C of a natural letter.
pub open spec fn letter_semitones(letter: Letter) -> int {
    match letter {
        Letter::C => 0,
        Letter::D => 2,
        Letter::E => 4,
        Letter::F => 5,
        Letter::G => 7,
        Letter::A => 9,
        Letter::B => 11,
    }
}

impl Letter {
    pub open spec fn all_spec() -> Seq<Letter> {
        seq![Letter::A, Letter::B, Letter::C, Letter::D, Letter::E, Letter::F, Letter::G]
    }

    /// Every letter, from A to G.
    pub fn all() -> (r: Vec<Letter>)
        ensures
            r@ == Letter::all_spec(),
    {
        vec![Letter::A, Letter::B, Letter::C, Letter::D, Letter::E, Letter::F, Letter::G]
    }
}

impl Modifier {
    pub open spec fn all_spec() -> Seq<Modifier> {
        seq![Modifier::Flat, Modifier::Natural]
    }

    /// Every modifier: flat, then natural.
    pub fn all() -> (r: Vec<Modifier>)
        ensures
            r@ == Modifier::all_spec(),
    {
        vec![Modifier::Flat, Modifier::Natural]
    }
}

impl Pitch {
    /// The pitch class, in semitones above C, in `0..12`.
    pub open spec fn index_spec(self) -> int {
        let raw = letter_semitones(self.letter) + match self.modifier {
            Modifier::Flat => -1int,
            Modifier::Natural => 0int,
        };
        if raw < 0 { raw + 12 } else { raw }
    }

    pub fn new(letter: Letter, modifier: Modifier) -> (r: Pitch)
        ensures
            r == (Pitch { letter, modifier }),
    {
        Pitch { letter, modifier }
    }

    /// Every pitch: each letter in order, flat before natural.
    pub fn all() -> (r: Vec<Pitch>)
        ensures
            r@.len() == 14,
            forall|i: int|
                0 <= i < 14 ==> #[trigger] r@[i] == (Pitch {
                    letter: Letter::all_spec()[i / 2],
                    modifier: Modifier::all_spec()[i % 2],
                }),
    {
        let letters = Letter::all();
        let modifiers = Modifier::all();
        let mut r: Vec<Pitch> = Vec::new();
        let mut i: usize = 0;
        while i < letters.len()
            invariant
                letters@ == Letter::all_spec(),
                modifiers@ == Modifier::all_spec(),
                0 <= i <= 7,
                r@.len() == 2 * i,
                forall|k: int|
                    0 <= k < 2 * i ==> #[trigger] r@[k] == (Pitch {
                        letter: Letter::all_spec()[k / 2],
                        modifier: Modifier::all_spec()[k % 2],
                    }),
            decreases 7 - i,
        {
            let mut j: usize = 0;
            while j < modifiers.len()
                invariant
                    letters@ == Letter::all_spec(),
                    modifiers@ == Modifier::all_spec(),
                    0 <= i < 7,
                    0 <= j <= 2,
                    r@.len() == 2 * i + j,
                    forall|k: int|
                        0 <= k < 2 * i + j ==> #[trigger] r@[k] == (Pitch {
                            letter: Letter::all_spec()[k / 2],
                            modifier: Modifier::all_spec()[k % 2],
                        }),
                decreases 2 - j,
            {
                r.push(Pitch::new(letters[i], modifiers[j]));
                proof {
                    let k = 2 * i + j;
                    assert(k / 2 == i && k % 2 == j);
                }
                j = j + 1;
            }
            i = i + 1;
        }
        r
    }

    /// The pitch class, in semitones above C.
    pub fn index(&self) -> (r: i8)
        ensures
            r == self.index_spec(),
            0 <= r < 12,
    {
        match (self.letter, self.modifier) {
            (Letter::C, Modifier::Natural) => 0,
            (Letter::D, Modifier::Flat) => 1,
            (Letter::D, Modifier::Natural) => 2,
            (Letter::E, Modifier::Flat) => 3,
            (Letter::E, Modifier::Natural) => 4,
            (Letter::F, Modifier::Flat) => 4,
            (Letter::F, Modifier::Natural) => 5,
            (Letter::G, Modifier::Flat) => 6,
            (Letter::G, Modifier::Natural) => 7,
            (Letter::A, Modifier::Flat) => 8,
            (Letter::A, Modifier::Natural) => 9,
            (Letter::B, Modifier::Flat) => 10,
            (Letter::B, Modifier::Natural) => 11,
            (Letter::C, Modifier::Flat) => 11,
        }
    }
}

} // verus!
