use line_runner::{BeatNumber, MeasureBeat, MidiClockTracker};

#[test]
fn minus_sixteenths_same_measure() {
    assert_eq!(
        BeatNumber { sixteenth_note: 2 }.minus_sixteenths(2),
        BeatNumber { sixteenth_note: 0 }
    );
}

#[test]
fn minus_sixteenths_wrap_around_measure() {
    assert_eq!(
        BeatNumber { sixteenth_note: 2 }.minus_sixteenths(3),
        BeatNumber { sixteenth_note: 15 }
    );
}

#[test]
fn add_sixteenths_same_measure() {
    assert_eq!(
        BeatNumber { sixteenth_note: 1 }.add_sixteenths(2),
        BeatNumber { sixteenth_note: 3 }
    );
}

#[test]
fn add_sixteenths_wrap_around_measure() {
    assert_eq!(
        BeatNumber { sixteenth_note: 14 }.add_sixteenths(2),
        BeatNumber { sixteenth_note: 0 }
    );
}

#[test]
fn duration_since_simple() {
    assert_eq!(
        BeatNumber { sixteenth_note: 14 }.duration_since(&BeatNumber { sixteenth_note: 2 }),
        12
    );
}

#[test]
fn duration_since_wrap_around() {
    assert_eq!(
        BeatNumber { sixteenth_note: 2 }.duration_since(&BeatNumber { sixteenth_note: 15 }),
        3
    );
}

#[test]
fn beginning_and_pickup_of_measure() {
    assert!(BeatNumber { sixteenth_note: 0 }.is_beginning_of_measure());
    assert!(!BeatNumber { sixteenth_note: 1 }.is_beginning_of_measure());
    assert!(BeatNumber { sixteenth_note: 15 }.is_next_beginning_of_measure());
    assert!(!BeatNumber { sixteenth_note: 14 }.is_next_beginning_of_measure());
}

#[test]
fn add_then_minus_gives_the_beat_back() {
    for s in 0..16u32 {
        for n in [0u32, 1, 5, 15, 16, 17, 31, 1000, u32::MAX] {
            let a = BeatNumber { sixteenth_note: s };
            assert_eq!(a.add_sixteenths(n).minus_sixteenths(n), a);
        }
    }
}

#[test]
fn duration_since_itself_is_zero_and_a_measure_is_identity() {
    for s in 0..16u32 {
        let a = BeatNumber { sixteenth_note: s };
        assert_eq!(a.duration_since(&a), 0);
        assert_eq!(a.add_sixteenths(16), a);
    }
}

#[test]
fn add_then_duration_since_gives_the_distance() {
    for s in 0..16u32 {
        for n in 0..16u32 {
            let b = BeatNumber { sixteenth_note: s };
            assert_eq!(b.add_sixteenths(n).duration_since(&b), n);
        }
    }
}

#[test]
fn increment_carries_into_the_measure() {
    let mut mb = MeasureBeat::new(BeatNumber { sixteenth_note: 15 }, 3);
    mb.increment();
    assert_eq!(mb, MeasureBeat::new(BeatNumber { sixteenth_note: 0 }, 4));
    mb.increment();
    assert_eq!(mb, MeasureBeat::new(BeatNumber { sixteenth_note: 1 }, 4));
    assert_eq!(MeasureBeat::default(), MeasureBeat::new(BeatNumber { sixteenth_note: 0 }, 0));
}

#[test]
fn incremented_by_equals_repeated_increments() {
    let start = MeasureBeat::new(BeatNumber { sixteenth_note: 13 }, 2);
    let mut stepped = start;
    for n in 0..40u32 {
        assert_eq!(start.incremented_by(n), stepped);
        stepped.increment();
    }
    assert_eq!(start.incremented_by(3), MeasureBeat::new(BeatNumber { sixteenth_note: 0 }, 3));
    assert_eq!(start.incremented(), MeasureBeat::new(BeatNumber { sixteenth_note: 14 }, 2));
}

#[test]
fn first_sixth_and_ninety_seventh_ticks() {
    let mut tracker = MidiClockTracker::new();
    let mut beats = Vec::new();
    for _ in 0..97 {
        beats.push(tracker.tick());
    }
    assert_eq!(beats[0], Some(BeatNumber { sixteenth_note: 0 }));
    assert_eq!(beats[1], None);
    assert_eq!(beats[6], Some(BeatNumber { sixteenth_note: 1 }));
    assert_eq!(beats[96], Some(BeatNumber { sixteenth_note: 0 }));
}

#[test]
fn any_ninety_six_ticks_give_sixteen_beats_in_order() {
    let mut tracker = MidiClockTracker::new();
    let mut beats = Vec::new();
    for _ in 0..400 {
        beats.push(tracker.tick());
    }
    for start in 0..300 {
        let window: Vec<u32> = beats[start..start + 96]
            .iter()
            .filter_map(|b| b.map(|b| b.sixteenth_note))
            .collect();
        assert_eq!(window.len(), 16);
        for j in 1..16 {
            assert_eq!(window[j], (window[j - 1] + 1) % 16);
        }
        if start % 96 == 0 {
            assert_eq!(window, (0..16).collect::<Vec<u32>>());
        }
    }
}
