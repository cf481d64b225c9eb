//! Turns the 24-per-quarter MIDI clock into one beat per sixteenth note.
use vstd::prelude::*;

use crate::beat_number::BeatNumber;

verus! {

/// MIDI clock ticks per quarter note.
pub const TICKS_PER_QUARTER_NOTE: u32 = 24;

/// Clock ticks per sixteenth note.
pub const TICKS_PER_SIXTEENTH: u32 = TICKS_PER_QUARTER_NOTE / 4;

/// Clock ticks per measure of sixteen sixteenths.
pub const TICKS_PER_MEASURE: u32 = TICKS_PER_QUARTER_NOTE * 4;

/// The beat that the `count`-th tick (counting from 1) announces, if any:
/// every sixth tick starting with the first, numbered within the measure.
pub open spec fn beat_for_tick(count: int) -> Option<BeatNumber> {
    if (count - 1) % 6 == 0 {
        Some(BeatNumber { sixteenth_note: (((count - 1) % 96) / 6) as u32 })
    } else {
        None
    }
}

/// The sixteenths announced by the `n` ticks that follow the first `start` ones.
pub open spec fn beats_announced(start: nat, n: nat) -> Seq<u32>
    decreases n,
{
    if n == 0 {
        Seq::empty()
    } else {
        let before = beats_announced(start, (n - 1) as nat);
        match beat_for_tick((start + n) as int) {
            Some(b) => before.push(b.sixteenth_note),
            None => before,
        }
    }
}

proof fn lemma_beats_announced_concat(start: nat, a: nat, b: nat)
    ensures
        beats_announced(start, a + b) == beats_announced(start, a) + beats_announced(start + a, b),
    decreases b,
{
    if b == 0 {
        assert(beats_announced(start, a) + beats_announced(start + a, 0) =~= beats_announced(start, a));
    } else {
        lemma_beats_announced_concat(start, a, (b - 1) as nat);
        assert(start + (a + b) == (start + a) + b);
        let left = beats_announced(start, a);
        let right = beats_announced(start + a, (b - 1) as nat);
        match beat_for_tick((start + a + b) as int) {
            Some(x) => {
                assert((left + right).push(x.sixteenth_note) =~= left + right.push(x.sixteenth_note));
            },
            None => {},
        }
    }
}

proof fn lemma_single_multiple_of_six(start: nat, q: nat, k: int)
    requires
        start <= 6 * q <= start + 5,
        0 <= k <= 5,
    ensures
        (start + k) % 6 == 0 <==> start + k == 6 * q,
{
    if (start + k) % 6 == 0 {
        let p = (start + k) / 6;
        assert(start + k == 6 * p);
    }
}

/// Six ticks in a row announce exactly one beat: the sixteenth of the
/// multiple of six among them.
proof fn lemma_beats_announced_six(start: nat)
    ensures
        beats_announced(start, 6) == seq![(((start + 5) / 6) % 16) as u32],
{
    reveal_with_fuel(beats_announced, 7);
    let q = (start + 5) / 6;
    assert(start <= 6 * q <= start + 5);
    let c = 6 * q - start;
    assert(0 <= c <= 5);
    assert((6 * q) % 96 == 6 * (q % 16)) by {
        vstd::arithmetic::div_mod::lemma_fundamental_div_mod(q as int, 16);
        assert(6 * q == 96 * (q / 16) + 6 * (q % 16));
        vstd::arithmetic::div_mod::lemma_mod_multiples_vanish((q / 16) as int, (6 * (q % 16)) as int, 96);
        vstd::arithmetic::div_mod::lemma_small_mod((6 * (q % 16)) as nat, 96);
    }
    assert(beat_for_tick((6 * q + 1) as int) == Some(BeatNumber { sixteenth_note: (q % 16) as u32 }));
    lemma_single_multiple_of_six(start, q, 0);
    lemma_single_multiple_of_six(start, q, 1);
    lemma_single_multiple_of_six(start, q, 2);
    lemma_single_multiple_of_six(start, q, 3);
    lemma_single_multiple_of_six(start, q, 4);
    lemma_single_multiple_of_six(start, q, 5);
    assert(beat_for_tick(start + 1int) is None <==> c != 0);
    assert(beat_for_tick(start + 2int) is None <==> c != 1);
    assert(beat_for_tick(start + 3int) is None <==> c != 2);
    assert(beat_for_tick(start + 4int) is None <==> c != 3);
    assert(beat_for_tick(start + 5int) is None <==> c != 4);
    assert(beat_for_tick(start + 6int) is None <==> c != 5);
    assert(beats_announced(start, 6) =~= seq![(((start + 5) / 6) % 16) as u32]);
}

proof fn lemma_beats_announced_blocks(start: nat, m: nat)
    ensures
        beats_announced(start, 6 * m).len() == m,
        forall|j: int|
            0 <= j < m ==> #[trigger] beats_announced(start, 6 * m)[j] == ((((start + 5) / 6) + j) % 16) as u32,
    decreases m,
{
    if m > 0 {
        let prev = (m - 1) as nat;
        lemma_beats_announced_blocks(start, prev);
        lemma_beats_announced_concat(start, 6 * prev, 6);
        lemma_beats_announced_six(start + 6 * prev);
        assert((start + 6 * prev + 5) / 6 == (start + 5) / 6 + prev) by {
            vstd::arithmetic::div_mod::lemma_div_plus_one(0, 6);
            vstd::arithmetic::div_mod::lemma_fundamental_div_mod((start + 5) as int, 6);
        }
        assert(6 * m == 6 * prev + 6);
    }
}

/// Any 96 consecutive ticks, after any number of earlier ones, announce
/// exactly 16 beats, whose sixteenths count up by one, wrapping after 15;
/// from the start of a measure they are 0, 1, ..., 15.
pub proof fn lemma_measure_of_ticks_announces_sixteen_beats(start: nat)
    ensures
        beats_announced(start, 96).len() == 16,
        forall|j: int|
            0 < j < 16 ==> #[trigger] beats_announced(start, 96)[j] == (beats_announced(start, 96)[j - 1] + 1)
                % 16,
        start % 96 == 0 ==> forall|j: int| 0 <= j < 16 ==> #[trigger] beats_announced(start, 96)[j] == j,
{
    lemma_beats_announced_blocks(start, 16);
    let q = (start + 5) / 6;
    let beats = beats_announced(start, 96);
    assert forall|j: int| 0 < j < 16 implies #[trigger] beats[j] == (beats[j - 1] + 1) % 16 by {
        assert(beats[j] == ((q + j) % 16) as u32);
        assert(beats[j - 1] == ((q + j - 1) % 16) as u32);
        vstd::arithmetic::div_mod::lemma_add_mod_noop(q + j - 1, 1, 16);
    }
    if start % 96 == 0 {
        let t = start / 96;
        assert(start == 96 * t);
        assert(q == 16 * t) by {
            assert(start + 5 == 6 * (16 * t) + 5);
            vstd::arithmetic::div_mod::lemma_fundamental_div_mod_converse((start + 5) as int, 6, (16 * t) as int, 5);
        }
        assert forall|j: int| 0 <= j < 16 implies #[trigger] beats[j] == j by {
            assert(beats[j] == ((q + j) % 16) as u32);
            vstd::arithmetic::div_mod::lemma_fundamental_div_mod_converse(q + j, 16, t as int, j);
        }
    }
}

/// Counts clock ticks and reports a beat on every sixteenth.
pub struct MidiClockTracker {
    /// Ticks received so far, modulo one measure.
    ticks_received: u32,
    /// All ticks received so far.
    ticks_total: Ghost<nat>,
}

impl MidiClockTracker {
    pub closed spec fn ticks(self) -> nat {
        self.ticks_total@
    }

    pub closed spec fn wf(self) -> bool {
        self.ticks_received == self.ticks_total@ % 96
    }

    /// A tracker that has seen no tick.
    pub fn new() -> (r: MidiClockTracker)
        ensures
            r.wf(),
            r.ticks() == 0,
    {
        MidiClockTracker { ticks_received: 0, ticks_total: Ghost(0) }
    }

    /// Records one tick and returns the beat it announces, if any.
    pub fn tick(&mut self) -> (r: Option<BeatNumber>)
        requires
            old(self).wf(),
        ensures
            final(self).wf(),
            final(self).ticks() == old(self).ticks() + 1,
            r == beat_for_tick(final(self).ticks() as int),
    {
        if self.ticks_received + 1 == TICKS_PER_MEASURE {
            self.ticks_received = 0;
        } else {
            self.ticks_received = self.ticks_received + 1;
        }
        self.ticks_total = Ghost(self.ticks_total@ + 1);
        self.emit_beat_number()
    }

    /// The beat announced by the latest tick, if any.
    pub fn emit_beat_number(&self) -> (r: Option<BeatNumber>)
        requires
            self.wf(),
        ensures
            r == beat_for_tick(self.ticks() as int),
    {
        let use_ticks_received = (self.ticks_received + TICKS_PER_MEASURE - 1) % TICKS_PER_MEASURE;
        proof {
            let t = self.ticks() as int;
            assert(use_ticks_received as int == (t - 1) % 96);
            assert((t - 1) % 6 == ((t - 1) % 96) % 6);
        }
        if use_ticks_received % TICKS_PER_SIXTEENTH != 0 {
            return None;
        }
        Some(BeatNumber { sixteenth_note: use_ticks_received / TICKS_PER_SIXTEENTH })
    }
}

} // verus!
