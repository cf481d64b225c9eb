use line_runner::SchedulingError;
use line_runner::harmony::get_is_within_a_half_step;
use line_runner::line_launcher::{note_off_time, note_on_time};
use line_runner::midi::{
    channel_index_from_number, control_function_from_number, control_value_ratio_from_midi_messages,
    interpolate_control_value, latest_control_value, note_off_message, note_on_message,
};
use line_runner::planner::{plan_initial_line, plan_overlapping_line};
use line_runner::{
    Action, BeatNumber, Chord, CombinedMessage, DurationBetweenSixteenthNotes, FireNoteOffMessage,
    FireNoteOnMessage, Letter, Line, LineLauncher, LineNote, MeasureBeat, Message, MidiClockTracker,
    MidiEvent, MidiSlider, Modifier, NoteOffScheduler, NoteOnScheduler, Pitch, PlannedNotes, Playback,
    PlayingState,
    Progression, Quality, ScheduleNoteOffMessage, ScheduleNoteOnMessage, SchedulerStep,
};

fn line(notes: &[(u32, u32, u8)]) -> Line {
    Line::new(
        notes
            .iter()
            .map(|&(start, duration, note)| LineNote {
                start: BeatNumber { sixteenth_note: start },
                duration,
                note,
            })
            .collect(),
    )
}

fn chord(letter: Letter, modifier: Modifier) -> Chord {
    Chord::new(Pitch::new(letter, modifier), Quality::Major)
}

fn c_major() -> Progression {
    Progression::new(&[chord(Letter::C, Modifier::Natural)])
}

fn mb(measure: u32, sixteenth: u32) -> MeasureBeat {
    MeasureBeat::new(BeatNumber { sixteenth_note: sixteenth }, measure)
}

/// Microseconds between two clock ticks in these runs: a sixteenth lasts six.
const TICK: u64 = 1000;

struct Run<'a> {
    playback: Playback<'a>,
    note_ons: NoteOnScheduler,
    note_offs: NoteOffScheduler,
    tracker: MidiClockTracker,
    played: Vec<(u64, Action)>,
}

impl<'a> Run<'a> {
    fn new(playback: Playback<'a>) -> Self {
        Run {
            playback,
            note_ons: NoteOnScheduler::new(),
            note_offs: NoteOffScheduler::new(),
            tracker: MidiClockTracker::new(),
            played: Vec::new(),
        }
    }

    fn perform(&mut self, now: u64, actions: Vec<Action>) {
        for action in actions {
            match action {
                Action::ScheduleNoteOn(m) => self.note_ons.submit(m),
                Action::ScheduleNoteOff(m) => self.note_offs.submit(m),
                Action::NoteOn(_) | Action::NoteOff(_) => self.played.push((now, action)),
            }
        }
    }

    fn send(&mut self, now: u64, message: CombinedMessage) {
        let actions = self.playback.handle(message, now, 0, 0).unwrap();
        self.perform(now, actions);
    }

    fn poll(&mut self, now: u64) {
        loop {
            if let SchedulerStep::Fire(f) = self.note_ons.poll(now) {
                self.send(now, CombinedMessage::FireNoteOnMessage(f));
                continue;
            }
            if let SchedulerStep::Fire(f) = self.note_offs.poll(now) {
                self.send(now, CombinedMessage::FireNoteOffMessage(f));
                continue;
            }
            break;
        }
    }

    /// Runs `ticks` more clock ticks, one every `TICK`, polling between them.
    fn run_ticks(&mut self, first_tick: u64, ticks: u64) {
        for k in first_tick..first_tick + ticks {
            let now = k * TICK;
            if let Some(beat) = self.tracker.tick() {
                self.send(now, CombinedMessage::BeatMessage(beat));
            }
            self.poll(now);
        }
    }

    fn notes_played(&self) -> Vec<Action> {
        self.played.iter().map(|(_, a)| *a).collect()
    }
}

fn no_pitch_turned_on_twice(played: &[Action]) -> bool {
    let mut sounding: Vec<u8> = Vec::new();
    for action in played {
        match action {
            Action::NoteOn(p) => {
                if sounding.contains(p) {
                    return false;
                }
                sounding.push(*p);
            }
            Action::NoteOff(p) => sounding.retain(|q| q != p),
            _ => {}
        }
    }
    true
}

#[test]
fn single_note_without_sliders() {
    let launcher = LineLauncher::new(vec![line(&[(0, 1, 60)])], c_major());
    let playback = launcher.start_with(0, 0);
    assert_eq!(playback.planned_notes().len(), 1);
    let mut run = Run::new(playback);
    run.run_ticks(1, 24);
    assert!(run.played.is_empty());
    run.run_ticks(25, 96);
    let downbeat = 97 * TICK;
    let sixteenth = 6 * TICK;
    assert_eq!(run.notes_played(), vec![Action::NoteOn(60), Action::NoteOff(60)]);
    let (on_time, _) = run.played[0];
    let (off_time, _) = run.played[1];
    assert!(on_time >= downbeat && on_time <= downbeat + sixteenth);
    assert_eq!(off_time, on_time + sixteenth);
}

#[test]
fn zero_duration_ratio_turns_the_note_off_at_once() {
    let launcher = LineLauncher::new(vec![line(&[(0, 1, 60)])], c_major());
    let mut run = Run::new(launcher.start_with(0, 0));
    run.send(0, CombinedMessage::DurationRatioMessage(0));
    run.run_ticks(1, 120);
    assert_eq!(run.notes_played(), vec![Action::NoteOn(60), Action::NoteOff(60)]);
    assert_eq!(run.played[0].0, run.played[1].0);
}

#[test]
fn note_on_time_follows_the_timing_sliders() {
    let now = 1_000_000;
    let t = 6000;
    assert_eq!(note_on_time(now, t, Some(127), Some(0), 0), now + t);
    assert_eq!(note_on_time(now, t, None, None, 200), now + t);
    assert_eq!(note_on_time(now, t, Some(0), Some(0), 0), now);
    assert_eq!(note_on_time(now, t, Some(254), Some(0), 0), now + 2 * t);
    assert_eq!(note_on_time(now, t, Some(0), Some(254), 254), now + 3000);
    assert_eq!(note_on_time(now, t, Some(0), Some(254), 0), now);
    assert!(note_on_time(now, t, Some(100), Some(0), 0) <= note_on_time(now, t, Some(101), Some(0), 0));
    assert_eq!(note_on_time(now, t, Some(127), Some(254), 254), now + 9000);
    assert_eq!(note_on_time(now, t, Some(127), Some(254), 0), now + 3000);
    assert_eq!(note_on_time(u64::MAX - 5, t, Some(127), Some(0), 0), u64::MAX);
    assert_eq!(note_off_time(now, t, 127), now + 3000);
    assert_eq!(note_off_time(now, t, 254), now + t);
    assert_eq!(note_off_time(now, t, 0), now);
}

#[test]
fn overlapping_replan_at_the_pickup_to_the_second_to_last_note() {
    let first = line(&[(0, 1, 60), (15, 1, 62), (0, 1, 64)]);
    let second = line(&[(0, 1, 62), (1, 1, 64), (2, 1, 65)]);
    let launcher = LineLauncher::new(vec![first, second], c_major());
    let mut playback = launcher.start_with(0, 0);
    let ons: Vec<MeasureBeat> = (0..3)
        .map(|i| playback.planned_notes().get(i).note_on.measure_beat)
        .collect();
    assert_eq!(ons, vec![mb(1, 0), mb(1, 15), mb(2, 0)]);
    let mut now = 0;
    for _ in 0..30 {
        let b = playback.next_measure_beat().beat_number;
        playback.handle(CombinedMessage::BeatMessage(b), now, 0, 0).unwrap();
        now += 6000;
        assert_eq!(playback.planned_notes().len(), 3);
    }
    assert_eq!(playback.next_measure_beat(), mb(1, 14));
    playback.handle(CombinedMessage::BeatMessage(BeatNumber { sixteenth_note: 14 }), now, 0, 0).unwrap();
    let planned = playback.planned_notes();
    assert_eq!(planned.len(), 3 - 2 + 3);
    let ons: Vec<MeasureBeat> = (0..4).map(|i| planned.get(i).note_on.measure_beat).collect();
    assert_eq!(ons, vec![mb(1, 0), mb(1, 15), mb(2, 0), mb(2, 1)]);
    let pitches: Vec<u8> = (0..4).map(|i| planned.get(i).note_on.note).collect();
    assert_eq!(pitches, vec![60, 62, 64, 65]);
    for i in 1..4 {
        let a = planned.get(i - 1).note_on.measure_beat;
        let b = planned.get(i).note_on.measure_beat;
        assert!((a.measure, a.beat_number.sixteenth_note) < (b.measure, b.beat_number.sixteenth_note));
    }
}

#[test]
fn progression_advances_at_each_pickup() {
    let progression = Progression::new(&[
        chord(Letter::C, Modifier::Natural),
        chord(Letter::E, Modifier::Flat),
    ]);
    let launcher = LineLauncher::new(vec![line(&[(0, 1, 60)])], progression);
    let mut playback = launcher.start_with(0, 0);
    let c = chord(Letter::C, Modifier::Natural);
    let e_flat = chord(Letter::E, Modifier::Flat);
    let mut now = 0;
    for measure in 0..3 {
        for s in 0..16 {
            playback.handle(CombinedMessage::BeatMessage(BeatNumber { sixteenth_note: s }), now, 0, 0).unwrap();
            now += 6000;
            if s < 15 {
                let expected = if measure == 1 { e_flat } else { c };
                assert_eq!(playback.current_chord(), expected);
            }
        }
    }
}

#[test]
fn notes_on_every_sixteenth_never_stack() {
    let notes: Vec<(u32, u32, u8)> = (0..16).map(|k| (k, 1, 60 + (k % 3) as u8)).collect();
    let launcher = LineLauncher::new(vec![line(&notes)], c_major());
    let mut run = Run::new(launcher.start_with(0, 0));
    run.run_ticks(1, 96 * 3);
    let played = run.notes_played();
    assert!(played.iter().filter(|a| matches!(a, Action::NoteOn(_))).count() >= 10);
    assert!(no_pitch_turned_on_twice(&played));
    let planned = run.playback.planned_notes();
    let fired: Vec<usize> = (0..planned.len()).filter(|&i| planned.get(i).has_note_on_fired).collect();
    for &i in &fired[..fired.len() - 1] {
        assert!(planned.get(i).has_note_off_fired);
    }
}

#[test]
fn firing_a_note_on_silences_the_previous_note() {
    let launcher = LineLauncher::new(vec![line(&[(0, 1, 60), (1, 1, 60), (2, 1, 62)])], c_major());
    let mut playback = launcher.start_with(0, 0);
    let first = playback.fire_note_on(0, 10);
    assert_eq!(first.preceding_note_off, None);
    assert_eq!(first.note_on, Some(60));
    assert_eq!(first.schedule_note_off, None);
    let second = playback.fire_note_on(1, 20);
    assert_eq!(second.preceding_note_off, Some(60));
    assert_eq!(second.note_on, Some(60));
    assert_eq!(playback.fire_note_off(0), None);
    assert_eq!(playback.fire_note_off(1), Some(60));
    assert_eq!(playback.fire_note_off(1), None);
    let third = playback.fire_note_on(2, 30);
    assert_eq!(third.preceding_note_off, None);
    assert_eq!(third.note_on, Some(62));
    let outside = playback.fire_note_on(7, 40);
    assert_eq!(outside.note_on, None);
    assert_eq!(playback.fire_note_off(7), None);
}

#[test]
fn fired_note_on_asks_for_its_note_off_once_the_interval_is_known() {
    let launcher = LineLauncher::new(vec![line(&[(0, 1, 60), (1, 1, 62)])], c_major());
    let mut playback = launcher.start_with(0, 0);
    playback.handle(CombinedMessage::BeatMessage(BeatNumber { sixteenth_note: 0 }), 1000, 0, 0).unwrap();
    playback.handle(CombinedMessage::BeatMessage(BeatNumber { sixteenth_note: 1 }), 7000, 0, 0).unwrap();
    assert_eq!(playback.duration_between_sixteenth_notes().get_duration(), Some(6000));
    playback.handle(CombinedMessage::DurationRatioMessage(127), 7000, 0, 0).unwrap();
    let actions = playback.handle(
        CombinedMessage::FireNoteOnMessage(FireNoteOnMessage { planned_note_index: 0 }),
        8000,
        0,
        0,
    ).unwrap();
    assert_eq!(
        actions,
        vec![
            Action::NoteOn(60),
            Action::ScheduleNoteOff(ScheduleNoteOffMessage { time: 11000, note_index: 0 }),
        ]
    );
    let actions = playback.handle(
        CombinedMessage::FireNoteOffMessage(FireNoteOffMessage { note_index: 0 }),
        11000,
        0,
        0,
    ).unwrap();
    assert_eq!(actions, vec![Action::NoteOff(60)]);
}

#[test]
fn beat_schedules_the_note_planned_for_the_next_sixteenth() {
    let launcher = LineLauncher::new(vec![line(&[(3, 1, 60), (4, 1, 62)])], c_major());
    let mut playback = launcher.start_with(0, 0);
    let a = playback.handle(CombinedMessage::BeatMessage(BeatNumber { sixteenth_note: 0 }), 0, 0, 0).unwrap();
    assert!(a.is_empty());
    let a = playback.handle(CombinedMessage::BeatMessage(BeatNumber { sixteenth_note: 1 }), 6000, 0, 0).unwrap();
    assert!(a.is_empty());
    let a = playback.handle(CombinedMessage::BeatMessage(BeatNumber { sixteenth_note: 2 }), 12000, 0, 0).unwrap();
    assert_eq!(
        a,
        vec![Action::ScheduleNoteOn(ScheduleNoteOnMessage { time: 18000, planned_note_index: 0 })]
    );
}

#[test]
fn missing_interval_is_an_error() {
    let launcher = LineLauncher::new(vec![line(&[(1, 1, 60)])], c_major());
    let mut playback = launcher.start_with(0, 0);
    let r = playback.handle(CombinedMessage::BeatMessage(BeatNumber { sixteenth_note: 0 }), 0, 0, 0);
    assert_eq!(r, Err(SchedulingError::MissingSixteenthInterval));
    assert_eq!(playback.next_measure_beat(), mb(0, 1));
}

#[test]
fn start_transposes_and_rejects_lines_out_of_range() {
    let launcher = LineLauncher::new(vec![line(&[(0, 1, 60)]), line(&[(0, 1, 125)])], c_major());
    let playback = launcher.start_with(0, 5);
    assert_eq!(playback.planned_notes().get(0).note_on.note, 65);
    assert_eq!(launcher.start_with(1, 5).planned_notes().len(), 0);
    assert_eq!(launcher.start_with(9, 0).planned_notes().len(), 0);
    let random = launcher.start();
    assert!(random.planned_notes().len() <= 1);
}

#[test]
fn launcher_from_progression_plays_built_in_lines() {
    let launcher = LineLauncher::from(c_major());
    let playback = launcher.start();
    let planned = playback.planned_notes();
    assert!(planned.len() >= 6);
    assert_eq!(planned.get(0).note_on.measure_beat, mb(0, 15));
}

#[test]
fn initial_plan_places_notes_by_the_eligible_beat() {
    let mut planned = PlannedNotes::new();
    plan_initial_line(&mut planned, &line(&[(5, 2, 60), (9, 1, 62), (2, 1, 64)]), 0, mb(3, 5));
    assert_eq!(planned.get(0).note_on.measure_beat, mb(3, 5));
    assert_eq!(planned.get(0).note_off.measure_beat, mb(3, 7));
    assert_eq!(planned.get(1).note_on.measure_beat, mb(3, 9));
    assert_eq!(planned.get(2).note_on.measure_beat, mb(4, 2));
    let mut planned = PlannedNotes::default();
    plan_initial_line(&mut planned, &line(&[(4, 1, 60)]), 2, mb(3, 5));
    assert_eq!(planned.get(0).note_on.measure_beat, mb(4, 4));
    assert_eq!(planned.get(0).note_on.note, 62);
    assert!(!planned.get(0).has_note_on_fired);
}

#[test]
fn overlapping_plan_replaces_the_last_two_entries() {
    let mut planned = PlannedNotes::new();
    plan_initial_line(&mut planned, &line(&[(0, 1, 60), (1, 1, 61), (2, 1, 62)]), 0, mb(0, 0));
    plan_overlapping_line(&mut planned, &line(&[(3, 1, 70), (8, 1, 71), (1, 1, 72)]), 1, mb(0, 14));
    assert_eq!(planned.len(), 4);
    assert_eq!(planned.get(0).note_on.note, 60);
    assert_eq!(planned.get(1).note_on.measure_beat, mb(0, 14));
    assert_eq!(planned.get(1).note_on.note, 71);
    assert_eq!(planned.get(2).note_on.measure_beat, mb(1, 3));
    assert_eq!(planned.get(3).note_on.measure_beat, mb(1, 12));
    assert!(planned.is_next_beat_message_pickup_to_the_last_note(mb(1, 3)));
    assert!(!planned.is_next_beat_message_pickup_to_the_last_note(mb(1, 12)));
}

#[test]
fn half_step_continuation() {
    assert_eq!(get_is_within_a_half_step(60, 60), (true, 0));
    assert_eq!(get_is_within_a_half_step(61, 60), (true, 0));
    assert_eq!(get_is_within_a_half_step(59, 60), (true, 0));
    assert_eq!(get_is_within_a_half_step(72, 60), (true, -12));
    assert_eq!(get_is_within_a_half_step(47, 60), (true, 12));
    assert_eq!(get_is_within_a_half_step(62, 60), (false, 0));
}

#[test]
fn schedulers_fire_in_submission_order_once_due() {
    let mut ons = NoteOnScheduler::new();
    assert_eq!(ons.poll(0), SchedulerStep::Idle);
    ons.submit(ScheduleNoteOnMessage { time: 200, planned_note_index: 1 });
    ons.submit(ScheduleNoteOnMessage { time: 100, planned_note_index: 2 });
    assert_eq!(ons.poll(150), SchedulerStep::Wait(50));
    assert_eq!(ons.poll(200), SchedulerStep::Fire(FireNoteOnMessage { planned_note_index: 1 }));
    assert_eq!(ons.poll(200), SchedulerStep::Fire(FireNoteOnMessage { planned_note_index: 2 }));
    assert_eq!(ons.poll(200), SchedulerStep::Idle);
    let mut offs = NoteOffScheduler::new();
    offs.submit(ScheduleNoteOffMessage { time: 10, note_index: 4 });
    assert_eq!(offs.poll(3), SchedulerStep::Wait(7));
    assert_eq!(offs.poll(30), SchedulerStep::Fire(FireNoteOffMessage { note_index: 4 }));
}

#[test]
fn sixteenth_interval_estimate() {
    let beat = BeatNumber { sixteenth_note: 0 };
    let d = DurationBetweenSixteenthNotes::new();
    assert_eq!(d.get_duration(), None);
    let d = d.process_beat_message(&beat, 1000);
    assert_eq!(d.get_duration(), None);
    let d = d.process_beat_message(&beat, 7000);
    assert_eq!(d.get_duration(), Some(6000));
    let d = d.process_beat_message(&beat, 5000);
    assert_eq!(d.get_duration(), Some(6000));
    let d = d.process_beat_message(&beat, 9000);
    assert_eq!(d.get_duration(), Some(4000));
    let backwards = DurationBetweenSixteenthNotes::new()
        .process_beat_message(&beat, 9000)
        .process_beat_message(&beat, 3000);
    assert_eq!(backwards.get_duration(), Some(0));
}

#[test]
fn midi_bytes_decode_and_encode() {
    assert_eq!(
        Message::from(5, &[0xF8]).unwrap(),
        Some(Message::new(5, MidiEvent::TimingClock))
    );
    assert_eq!(
        Message::from(6, &[0xB1, 28, 64]).unwrap(),
        Some(Message::new(6, MidiEvent::ControlChange { channel: 1, function: 28, value: 64 }))
    );
    assert_eq!(
        Message::from(7, &[0x90, 60, 100]).unwrap(),
        Some(Message::new(7, MidiEvent::Other))
    );
    assert!(Message::from(8, &[]).is_err());
    assert!(Message::from(8, &[0xB0, 200, 1]).is_err());
    assert!(Message::from(8, &[0x3C]).is_err());
    assert_eq!(note_on_message(60), vec![0x90, 60, 100]);
    assert_eq!(note_off_message(61), vec![0x80, 61, 100]);
}

#[test]
fn slider_reads_only_its_controller() {
    let slider = MidiSlider { channel: 15, control_change: 28 };
    let cc = |channel, function, value| Message::new(0, MidiEvent::ControlChange { channel, function, value });
    assert_eq!(control_value_ratio_from_midi_messages(&[cc(15, 28, 0)], slider), Some(0));
    assert_eq!(control_value_ratio_from_midi_messages(&[cc(15, 28, 127)], slider), Some(254));
    assert_eq!(control_value_ratio_from_midi_messages(&[cc(15, 28, 64)], slider), Some(128));
    assert_eq!(control_value_ratio_from_midi_messages(&[cc(14, 28, 64)], slider), None);
    assert_eq!(control_value_ratio_from_midi_messages(&[cc(15, 27, 64)], slider), None);
    assert_eq!(
        control_value_ratio_from_midi_messages(&[Message::new(0, MidiEvent::TimingClock)], slider),
        None
    );
    assert_eq!(
        latest_control_value(slider, &[cc(15, 28, 3), cc(15, 28, 9), cc(2, 28, 100)]),
        Some(9)
    );
    assert_eq!(interpolate_control_value(0, 254, 127), 254);
    assert_eq!(interpolate_control_value(10, 20, 0), 10);
    assert_eq!(channel_index_from_number(1), Some(0));
    assert_eq!(channel_index_from_number(16), Some(15));
    assert_eq!(channel_index_from_number(0), None);
    assert_eq!(channel_index_from_number(17), None);
    assert_eq!(control_function_from_number(127), Some(127));
    assert_eq!(control_function_from_number(128), None);
}

#[test]
fn playing_state_follows_the_firings() {
    let launcher = LineLauncher::new(vec![line(&[(0, 1, 60), (1, 1, 62), (2, 1, 64)])], c_major());
    let mut playback = launcher.start_with(0, 3);
    assert_eq!(
        playback.playing_state(),
        PlayingState::Playing { line_index: 0, next_note_index: 0, pitch_offset: 3, next_note_off_index: 0 }
    );
    playback.fire_note_on(0, 0);
    playback.fire_note_on(1, 10);
    assert_eq!(
        playback.playing_state(),
        PlayingState::Playing { line_index: 0, next_note_index: 2, pitch_offset: 3, next_note_off_index: 1 }
    );
    let empty = LineLauncher::new(vec![], c_major());
    assert_eq!(empty.start().playing_state(), PlayingState::NotPlaying);
}

#[test]
fn handle_message_applies_slider_changes() {
    let launcher = LineLauncher::new(vec![line(&[(0, 1, 60), (1, 1, 62)])], c_major());
    let mut playback = launcher.start_with(0, 0);
    assert!(playback.handle_message(CombinedMessage::DurationRatioMessage(0), 0).unwrap().is_empty());
    assert!(playback
        .handle_message(CombinedMessage::AheadOrBehindTheBeatRatioMessage(254), 0).unwrap()
        .is_empty());
    playback.handle_message(CombinedMessage::BeatMessage(BeatNumber { sixteenth_note: 0 }), 0).unwrap();
    playback.handle_message(CombinedMessage::BeatMessage(BeatNumber { sixteenth_note: 1 }), 6000).unwrap();
    let actions = playback.handle_message(
        CombinedMessage::FireNoteOnMessage(FireNoteOnMessage { planned_note_index: 0 }),
        7000,
    ).unwrap();
    assert_eq!(
        actions,
        vec![
            Action::NoteOn(60),
            Action::ScheduleNoteOff(ScheduleNoteOffMessage { time: 7000, note_index: 0 }),
        ]
    );
}
