//! Chords: a root pitch and a quality.
use vstd::prelude::*;

use crate::pitch::Pitch;

verus! {

#[derive(PartialEq, Eq, Structural, Debug, Clone, Copy)]
pub enum Quality {
    Major,
    Minor,
    MajorSeventh,
    Seventh,
    MinorSeventh,
}

impl Quality {
    pub open spec fn all_spec() -> Seq<Quality> {
        seq![
            Quality::Major,
            Quality::Minor,
            Quality::MajorSeventh,
            Quality::Seventh,
            Quality::MinorSeventh,
        ]
    }

    /// Every quality, in declaration order.
    pub fn all() -> (r: Vec<Quality>)
        ensures
            r@ == Quality::all_spec(),
    {
        vec![
            Quality::Major,
            Quality::Minor,
            Quality::MajorSeventh,
            Quality::Seventh,
            Quality::MinorSeventh,
        ]
    }
}

#[derive(PartialEq, Eq, Structural, Debug, Clone, Copy)]
pub struct Chord {
    pub pitch: Pitch,
    pub quality: Quality,
}

impl Chord {
    pub fn new(pitch: Pitch, quality: Quality) -> (r: Chord)
        ensures
            r == (Chord { pitch, quality }),
    {
        Chord { pitch, quality }
    }
}

} // verus!
