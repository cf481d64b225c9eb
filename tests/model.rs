use line_runner::{Chord, Letter, Modifier, Parsed, Pitch, Progression, ProgressionState, Quality, Song};

#[test]
fn letter_parser() {
    let parsed: Vec<_> = Letter::all()
        .iter()
        .map(|l| l.to_string())
        .map(|string| Letter::parser(string.as_bytes(), 0).unwrap().0)
        .collect();
    let letters: Vec<_> = Letter::all();

    assert_eq!(parsed, letters);
}

#[test]
fn modifier_parser() {
    let parsed: Vec<_> = Modifier::all()
        .iter()
        .map(|m| m.to_string())
        .map(|string| Modifier::parser(string.as_bytes(), 0).0)
        .collect();
    let modifiers: Vec<_> = Modifier::all();

    assert_eq!(parsed, modifiers);
}

#[test]
fn quality_parser() {
    let parsed: Vec<_> = Quality::all()
        .iter()
        .map(|q| q.to_string())
        .map(|string| Quality::parser(string.as_bytes(), 0).unwrap().0)
        .collect();
    let qualities: Vec<_> = Quality::all();

    assert_eq!(parsed, qualities);
}

#[test]
fn pitch_parser() {
    let parsed: Vec<_> = Pitch::all()
        .iter()
        .map(|pitch| pitch.to_string())
        .map(|string| Pitch::parser(string.as_bytes(), 0).unwrap().0)
        .collect();

    assert_eq!(parsed, Pitch::all());
}

#[test]
fn index() {
    assert_eq!(Pitch::new(Letter::G, Modifier::Natural).index(), 7);
}

#[test]
fn pitch_indexes_cover_flats() {
    assert_eq!(Pitch::new(Letter::C, Modifier::Natural).index(), 0);
    assert_eq!(Pitch::new(Letter::C, Modifier::Flat).index(), 11);
    assert_eq!(Pitch::new(Letter::F, Modifier::Flat).index(), 4);
    assert_eq!(Pitch::new(Letter::E, Modifier::Flat).index(), 3);
    assert_eq!(Pitch::all().len(), 14);
}

#[test]
fn chord_parser() {
    let chords: Vec<_> = Pitch::all()
        .into_iter()
        .flat_map(|pitch| Quality::all().into_iter().map(move |quality| Chord::new(pitch, quality)))
        .collect();

    let parsed: Vec<_> = chords
        .iter()
        .map(|chord| chord.to_string())
        .map(|string| match Chord::parser(string.as_bytes(), 0) {
            Parsed::Done(chord, _) => chord,
            other => panic!("not a chord: {:?}", other),
        })
        .collect();

    assert_eq!(parsed, chords);
}

#[test]
fn chord_parser_rejects_a_lone_major_seventh_mark() {
    assert_eq!(Chord::parser("CM".as_bytes(), 0), Parsed::Failed);
    assert_eq!(Chord::parser("x".as_bytes(), 0), Parsed::Declined);
    assert_eq!(
        Chord::parser("Ebm7".as_bytes(), 0),
        Parsed::Done(
            Chord::new(Pitch::new(Letter::E, Modifier::Flat), Quality::MinorSeventh),
            4
        )
    );
}

#[test]
fn parse() {
    let progressions = vec!["A Bm CM7 D7 Em7".to_string()];

    let parsed: Vec<_> = progressions
        .iter()
        .map(|string| Progression::parse(string).unwrap())
        .map(|s| s.to_string())
        .collect();

    assert_eq!(parsed, progressions)
}

#[test]
fn progression_parse_edge_cases() {
    assert_eq!(Progression::parse("").unwrap().chords.len(), 0);
    assert!(Progression::parse("C ").is_err());
    assert!(Progression::parse("C x").is_err());
    assert_eq!(Progression::parse("Cx").unwrap().chords.len(), 1);
    assert_eq!(Progression::parse("CD").unwrap().chords.len(), 2);
    assert_eq!(Progression::default().to_string(), "C");
}

#[test]
fn song_parser() {
    let songs = vec!["A Bm CM7 D7 Em7".to_string()];

    let parsed: Vec<_> = songs
        .iter()
        .map(|s| Song::parser(s.as_bytes(), 0).unwrap().0)
        .map(|s| s.to_string())
        .collect();

    assert_eq!(parsed, songs)
}

#[test]
fn progression_advances_once_per_measure_and_wraps() {
    let c = Chord::new(Pitch::new(Letter::C, Modifier::Natural), Quality::Major);
    let e_flat = Chord::new(Pitch::new(Letter::E, Modifier::Flat), Quality::Major);
    let progression = Progression::new(&[c, e_flat]);
    let mut state = ProgressionState::new(&progression);
    assert!(!state.has_started());
    assert_eq!(*state.current_chord(), c);
    state.tick_measure();
    assert!(state.has_started());
    assert_eq!(state.chord_index(), 0);
    assert_eq!(*state.current_chord(), c);
    state.tick_measure();
    assert_eq!(*state.current_chord(), e_flat);
    state.tick_measure();
    assert_eq!(*state.current_chord(), c);
}
