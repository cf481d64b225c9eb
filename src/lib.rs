//! A beat-locked MIDI line launcher: clock inference, line planning,
//! note scheduling and the playback state machine, with their contracts.
pub mod beat_number;
pub mod chord;
pub mod grammar;
pub mod harmony;
pub mod line;
pub mod line_grammar;
pub mod line_launcher;
pub mod midi;
pub mod midi_clock_tracker;
pub mod pitch;
pub mod planner;
pub mod progression;
mod random;
pub mod scheduler;
pub mod sixteenth_interval;
pub mod text;

pub use beat_number::{BeatNumber, MeasureBeat};
pub use chord::{Chord, Quality};
pub use line::{Line, LineNote};
pub use grammar::{ParseError, Parsed};
pub use line_grammar::parse_line;
pub use line_launcher::{
    Action, CombinedMessage, LineLauncher, NoteOnFiring, Playback, PlayingState, SchedulingError,
};
pub use midi::{Message, MidiEvent, MidiSlider};
pub use midi_clock_tracker::MidiClockTracker;
pub use pitch::{Letter, Modifier, Pitch};
pub use planner::{PlannedNote, PlannedNotes};
pub use progression::{Progression, ProgressionState, Song};
pub use scheduler::{
    FireNoteOffMessage, SchedulerStep, FireNoteOnMessage, NoteOffScheduler, NoteOnScheduler, ScheduleNoteOffMessage,
    ScheduleNoteOnMessage,
};
pub use sixteenth_interval::DurationBetweenSixteenthNotes;
