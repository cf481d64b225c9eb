use line_runner::{parse_line, BeatNumber, Line, LineNote};

fn line(notes: &[(u32, u32, u8)]) -> Line {
    Line::new(
        notes
            .iter()
            .map(|&(start, duration, note)| LineNote {
                start: BeatNumber { sixteenth_note: start },
                duration,
                note,
            })
            .collect(),
    )
}

const C4: u8 = 60;
const DB4: u8 = 61;
const EB4: u8 = 63;
const E4: u8 = 64;
const F4: u8 = 65;
const E3: u8 = 52;
const F3: u8 = 53;
const GB3: u8 = 54;
const G3: u8 = 55;
const BB3: u8 = 58;
const F_MINUS_1: u8 = 5;

fn downbeat_line_with_low_f() -> Line {
    line(&[
        (0, 1, C4),
        (1, 1, F_MINUS_1),
        (2, 1, G3),
        (3, 1, BB3),
        (4, 1, C4),
        (5, 1, DB4),
        (6, 1, EB4),
        (7, 1, F4),
        (8, 1, E4),
    ])
}

fn downbeat_line() -> Line {
    line(&[
        (0, 1, C4),
        (1, 1, F3),
        (2, 1, G3),
        (3, 1, BB3),
        (4, 1, C4),
        (5, 1, DB4),
        (6, 1, EB4),
        (7, 1, F4),
        (8, 1, E4),
    ])
}

fn sustained_line() -> Line {
    line(&[
        (0, 1, C4),
        (1, 1, F3),
        (2, 1, G3),
        (3, 1, BB3),
        (4, 1, C4),
        (5, 1, DB4),
        (6, 1, EB4),
        (7, 1, F4),
        (8, 4, E4),
    ])
}

fn leading_rest_line() -> Line {
    line(&[
        (1, 1, DB4),
        (2, 1, BB3),
        (3, 1, DB4),
        (4, 2, C4),
        (6, 1, BB3),
        (7, 1, G3),
        (8, 1, F3),
        (9, 1, BB3),
        (10, 1, F3),
        (11, 1, GB3),
        (12, 1, G3),
        (13, 1, GB3),
        (14, 1, F3),
        (15, 1, G3),
        (0, 4, E3),
    ])
}

#[test]
fn line_parser_it_parses_line_starting_on_downbeat() {
    assert_eq!(parse_line("C4 F-1 G3 Bb3 C4 Db4 Eb4 F4 E4").unwrap(), downbeat_line_with_low_f());
    assert_eq!(parse_line("C4 F3 G3 Bb3 C4 Db4 Eb4 F4 E4").unwrap(), downbeat_line())
}

#[test]
fn line_parser_it_parses_sustain() {
    assert_eq!(parse_line("C4 F3 G3 Bb3 C4 Db4 Eb4 F4 E4 . . .").unwrap(), sustained_line())
}

#[test]
fn line_parser_it_parses_trailing_rests() {
    assert_eq!(parse_line("C4 F3 G3 Bb3 C4 Db4 Eb4 F4 E4 . . . - -").unwrap(), sustained_line())
}

#[test]
fn line_parser_it_parses_leading_rests() {
    assert_eq!(
        parse_line("- Db4 Bb3 Db4 C4 . Bb3 G3 F3 Bb3 F3 Gb3 G3 Gb3 F3 G3 E3 . . .").unwrap(),
        leading_rest_line()
    )
}

#[test]
fn line_parser2_it_parses_line_starting_on_downbeat() {
    assert_eq!(parse_line("C4 F3 G3 Bb3 C4 Db4 Eb4 F4 E4").unwrap(), downbeat_line())
}

#[test]
fn line_parser2_it_parses_sustain() {
    assert_eq!(parse_line("C4 F3 G3 Bb3 C4 Db4 Eb4 F4 E4 . . .").unwrap(), sustained_line())
}

#[test]
fn parser_it_parses_line_starting_on_downbeat() {
    assert_eq!(Line::parse("C4 F-1 G3 Bb3 C4 Db4 Eb4 F4 E4").unwrap(), downbeat_line_with_low_f())
}

#[test]
fn parser_it_parses_sustain() {
    assert_eq!(Line::parse("C4 F3 G3 Bb3 C4 Db4 Eb4 F4 E4 . . .").unwrap(), sustained_line())
}

#[test]
fn parser_it_parses_trailing_rests() {
    assert_eq!(Line::parse("C4 F3 G3 Bb3 C4 Db4 Eb4 F4 E4 . . . - -").unwrap(), sustained_line())
}

#[test]
fn parser_it_parses_leading_rests() {
    assert_eq!(
        Line::parse("- Db4 Bb3 Db4 C4 . Bb3 G3 F3 Bb3 F3 Gb3 G3 Gb3 F3 G3 E3 . . .").unwrap(),
        leading_rest_line()
    )
}

#[test]
fn line_parse_rejects_malformed_notes() {
    assert!(Line::parse("").is_err());
    assert!(Line::parse("C").is_err());
    assert!(Line::parse("C-x").is_err());
    assert!(Line::parse("x").is_err());
    assert_eq!(Line::parse("- -").unwrap().notes.len(), 0);
}

#[test]
fn built_in_lines_all_parse() {
    assert_eq!(Line::all().len(), 16);
    let lines = Line::outside_of_the_key_lines();
    assert_eq!(lines.len(), 22);
    for l in &lines {
        assert_eq!(l.notes[0].start, BeatNumber { sixteenth_note: 15 });
        assert!(l.notes.len() >= 6);
    }
}

#[test]
fn pickup_to_the_last_note_of_a_line() {
    let l = downbeat_line();
    assert!(l.is_next_beat_message_pickup_to_the_last_note(BeatNumber { sixteenth_note: 6 }, 7));
    assert!(!l.is_next_beat_message_pickup_to_the_last_note(BeatNumber { sixteenth_note: 6 }, 6));
    assert!(!l.is_next_beat_message_pickup_to_the_last_note(BeatNumber { sixteenth_note: 5 }, 7));
}
