//! Musical position: a sixteenth within a measure, and (measure, sixteenth) pairs.
use vstd::prelude::*;

verus! {

/// A sixteenth note within a measure of common time, in `0..16`.
#[derive(PartialEq, Eq, Structural, Debug, Clone, Copy)]
pub struct BeatNumber {
    pub sixteenth_note: u32,
}

/// `x` modulo 16, in `0..16`, also for negative `x`.
pub open spec fn mod16(x: int) -> int {
    x % 16
}

impl BeatNumber {
    /// A beat number is valid when it lies within one measure.
    pub open spec fn wf(self) -> bool {
        self.sixteenth_note < 16
    }

    pub open spec fn plus(self, n: int) -> BeatNumber {
        BeatNumber { sixteenth_note: mod16(self.sixteenth_note + n) as u32 }
    }

    pub open spec fn distance_since(self, other: BeatNumber) -> int {
        mod16(self.sixteenth_note - other.sixteenth_note)
    }

    /// The downbeat: the first sixteenth of a measure.
    pub fn is_beginning_of_measure(&self) -> (r: bool)
        ensures
            r == (self.sixteenth_note == 0),
    {
        self.sixteenth_note == 0
    }

    /// The pickup: the last sixteenth, just before the next downbeat.
    pub fn is_next_beginning_of_measure(&self) -> (r: bool)
        ensures
            r == (self.sixteenth_note == 15),
    {
        self.sixteenth_note == 15
    }

    /// Moves back by `num_sixteenths`, wrapping around the measure.
    pub fn minus_sixteenths(&self, num_sixteenths: u32) -> (r: BeatNumber)
        ensures
            r == self.plus(-num_sixteenths),
            r.wf(),
    {
        BeatNumber { sixteenth_note: (self.sixteenth_note % 16 + 16 - num_sixteenths % 16) % 16 }
    }

    /// Moves forward by `num_sixteenths`, wrapping around the measure.
    pub fn add_sixteenths(&self, num_sixteenths: u32) -> (r: BeatNumber)
        ensures
            r == self.plus(num_sixteenths as int),
            r.wf(),
    {
        BeatNumber { sixteenth_note: (self.sixteenth_note % 16 + num_sixteenths % 16) % 16 }
    }

    /// How many sixteenths lie from `other` forward to `self`, in `0..16`.
    pub fn duration_since(&self, other: &BeatNumber) -> (r: u32)
        ensures
            r == self.distance_since(*other),
            r < 16,
    {
        (self.sixteenth_note % 16 + 16 - other.sixteenth_note % 16) % 16
    }
}

/// Adding `n` sixteenths and taking `n` away again gives back the beat.
pub proof fn lemma_add_then_minus(a: BeatNumber, n: int)
    requires
        a.wf(),
    ensures
        a.plus(n).plus(-n) == a,
{
}

/// No time has passed between a beat and itself.
pub proof fn lemma_duration_since_self(a: BeatNumber)
    ensures
        a.distance_since(a) == 0,
{
}

/// A whole measure forward is the same beat.
pub proof fn lemma_add_whole_measure(a: BeatNumber)
    requires
        a.wf(),
    ensures
        a.plus(16) == a,
{
}

/// Adding a whole measure more gives the same beat, for any start and any `n`.
pub proof fn lemma_add_measure_more(a: BeatNumber, n: int)
    ensures
        a.plus(n + 16) == a.plus(n),
{
}

/// The distance from `b` to `b` plus `n` is `n`, for `n` within one measure.
pub proof fn lemma_add_then_duration_since(b: BeatNumber, n: int)
    requires
        0 <= n < 16,
    ensures
        b.plus(n).distance_since(b) == n,
{
}

/// A position in musical time: a measure number and the sixteenth within it.
#[derive(PartialEq, Eq, Structural, Debug, Clone, Copy)]
pub struct MeasureBeat {
    pub beat_number: BeatNumber,
    pub measure: u32,
}

impl MeasureBeat {
    pub open spec fn wf(self) -> bool {
        self.beat_number.wf()
    }

    /// Sixteenths since the start of measure 0.
    pub open spec fn position(self) -> int {
        self.measure * 16 + self.beat_number.sixteenth_note
    }

    /// The position one sixteenth later.
    pub open spec fn next(self) -> MeasureBeat {
        if self.beat_number.sixteenth_note == 15 {
            MeasureBeat { beat_number: BeatNumber { sixteenth_note: 0 }, measure: (self.measure + 1) as u32 }
        } else {
            MeasureBeat {
                beat_number: BeatNumber { sixteenth_note: (self.beat_number.sixteenth_note + 1) as u32 },
                measure: self.measure,
            }
        }
    }

    /// The position after `n` single increments.
    pub open spec fn advanced(self, n: nat) -> MeasureBeat
        decreases n,
    {
        if n == 0 {
            self
        } else {
            self.advanced((n - 1) as nat).next()
        }
    }

    /// Whether the position `n` sixteenths later still has a measure number that fits in a `u32`.
    pub open spec fn fits_after(self, n: nat) -> bool {
        self.position() + n < 16 * (u32::MAX as int + 1)
    }

    pub fn new(beat_number: BeatNumber, measure: u32) -> (r: MeasureBeat)
        ensures
            r == (MeasureBeat { beat_number, measure }),
    {
        MeasureBeat { beat_number, measure }
    }

    /// Moves one sixteenth forward, carrying into the measure on the last sixteenth.
    pub fn increment(&mut self)
        requires
            old(self).wf(),
            old(self).fits_after(1),
        ensures
            *final(self) == old(self).next(),
            final(self).wf(),
            final(self).position() == old(self).position() + 1,
    {
        if self.beat_number.sixteenth_note == 15 {
            self.measure = self.measure + 1;
            self.beat_number = BeatNumber { sixteenth_note: 0 };
        } else {
            self.beat_number = BeatNumber { sixteenth_note: self.beat_number.sixteenth_note + 1 };
        }
    }

    /// The position one sixteenth later.
    pub fn incremented(&self) -> (r: MeasureBeat)
        requires
            self.wf(),
            self.fits_after(1),
        ensures
            r == self.next(),
            r.wf(),
            r.position() == self.position() + 1,
    {
        let mut cloned = *self;
        cloned.increment();
        cloned
    }

    /// The position `num_sixteenths` later: the same as that many single increments.
    pub fn incremented_by(&self, num_sixteenths: u32) -> (r: MeasureBeat)
        requires
            self.wf(),
            self.fits_after(num_sixteenths as nat),
        ensures
            r == self.advanced(num_sixteenths as nat),
            r.wf(),
            r.position() == self.position() + num_sixteenths,
    {
        let mut cloned = *self;
        let mut i: u32 = 0;
        while i < num_sixteenths
            invariant
                self.wf(),
                self.fits_after(num_sixteenths as nat),
                i <= num_sixteenths,
                cloned == self.advanced(i as nat),
                cloned.wf(),
                cloned.position() == self.position() + i,
            decreases num_sixteenths - i,
        {
            cloned.increment();
            i = i + 1;
        }
        cloned
    }
}

impl Default for MeasureBeat {
    /// The first sixteenth of measure 0.
    fn default() -> (r: MeasureBeat)
        ensures
            r == (MeasureBeat { beat_number: BeatNumber { sixteenth_note: 0 }, measure: 0 }),
    {
        MeasureBeat { beat_number: BeatNumber { sixteenth_note: 0 }, measure: 0 }
    }
}

/// Advancing moves the position forward by exactly the number of sixteenths.
pub proof fn lemma_advanced_position(mb: MeasureBeat, n: nat)
    requires
        mb.wf(),
        mb.fits_after(n),
    ensures
        mb.advanced(n).wf(),
        mb.advanced(n).position() == mb.position() + n,
    decreases n,
{
    if n > 0 {
        lemma_advanced_position(mb, (n - 1) as nat);
    }
}

/// Advancing by `a` and then by `b` is advancing by `a + b`.
pub proof fn lemma_advanced_compose(mb: MeasureBeat, a: nat, b: nat)
    ensures
        mb.advanced(a).advanced(b) == mb.advanced(a + b),
    decreases b,
{
    if b > 0 {
        lemma_advanced_compose(mb, a, (b - 1) as nat);
    }
}

} // verus!
