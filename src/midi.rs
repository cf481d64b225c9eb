//! Inbound MIDI messages, slider bindings, and the bytes of outbound notes.
use vstd::prelude::*;

use std::convert::TryFrom;

verus! {

/// What the library reads of an inbound MIDI message.
#[derive(PartialEq, Eq, Structural, Debug, Clone, Copy)]
pub enum MidiEvent {
    TimingClock,
    /// A control change: channel index in `0..16`, controller and value in `0..128`.
    ControlChange { channel: u8, function: u8, value: u8 },
    Other,
}

/// An inbound MIDI message and when it arrived, in microseconds.
#[derive(PartialEq, Eq, Structural, Debug, Clone, Copy)]
pub struct Message {
    pub timestamp: u64,
    pub message: MidiEvent,
}

/// Bytes that are not a MIDI message.
#[derive(PartialEq, Eq, Structural, Debug, Clone, Copy)]
pub enum MessageError {
    InvalidBytes,
}

/// The controller that a slider sends: channel index in `0..16` and
/// control function in `0..128`.
#[derive(PartialEq, Eq, Structural, Debug, Clone, Copy)]
pub struct MidiSlider {
    pub channel: u8,
    pub control_change: u8,
}

/// Slider ratios are counted in steps of this many per whole.
pub const RATIO_SCALE: u32 = 254;

/// The largest control value.
pub const CONTROL_VALUE_MAX: u8 = 127;

/// A control change of three bytes: status `0xB0` to `0xBF`, two data bytes.
pub open spec fn is_control_change_bytes(b: Seq<u8>) -> bool {
    &&& b.len() >= 3
    &&& 0xB0 <= b[0] < 0xC0
    &&& b[1] < 128
    &&& b[2] < 128
}

/// The control change that the bytes of one hold.
pub open spec fn control_change_of(b: Seq<u8>) -> MidiEvent {
    MidiEvent::ControlChange { channel: (b[0] - 0xB0) as u8, function: b[1], value: b[2] }
}

#[verifier::external_type_specification]
#[verifier::external_body]
pub struct ExFromBytesError(wmidi::FromBytesError);

/// A decoded event, nothing for a dropped message, or the decoder's error.
pub type DecodedEvent = Result<Option<MidiEvent>, wmidi::FromBytesError>;

/// The decoding of the bytes of a control change.
pub open spec fn decoded_control_change(b: Seq<u8>) -> DecodedEvent {
    Ok(Some(control_change_of(b)))
}

/// Relies on `wmidi::MidiMessage::try_from` and `drop_unowned_sysex`: no bytes
/// are an error; `0xF8` is the timing clock; a control change is decoded from
/// its status and two data bytes, and is an error when a data byte is 128 or more;
/// a borrowed SysEx message is dropped.
#[verifier::external_body]
fn decode_midi_event(bytes: &[u8]) -> (r: DecodedEvent)
    ensures
        bytes@.len() == 0 ==> (r is Err),
        (bytes@.len() >= 1 && bytes@[0] == 0xF8) <==> (r matches Ok(Some(MidiEvent::TimingClock))),
        is_control_change_bytes(bytes@) ==> r == decoded_control_change(bytes@),
        (r matches Ok(Some(e)) && e is ControlChange) ==> is_control_change_bytes(bytes@),
{
    match wmidi::MidiMessage::try_from(bytes).map(|m| m.drop_unowned_sysex()) {
        Err(e) => Err(e),
        Ok(None) => Ok(None),
        Ok(Some(wmidi::MidiMessage::TimingClock)) => Ok(Some(MidiEvent::TimingClock)),
        Ok(Some(wmidi::MidiMessage::ControlChange(channel, function, value))) => {
            Ok(Some(MidiEvent::ControlChange { channel: channel.index(), function: function.into(), value: value.into() }))
        },
        Ok(Some(_)) => Ok(Some(MidiEvent::Other)),
    }
}

/// Relies on `wmidi::MidiMessage::NoteOn` and `copy_to_slice`: a note-on is
/// the status `0x90` plus the channel index, then the note and the velocity.
#[verifier::external_body]
fn note_on_bytes(channel: u8, note: u8, velocity: u8) -> (r: Vec<u8>)
    requires
        channel < 16,
        note < 128,
        velocity < 128,
    ensures
        r@ == seq![(0x90 + channel) as u8, note, velocity],
{
    let message = wmidi::MidiMessage::NoteOn(
        wmidi::Channel::from_index(channel).unwrap(),
        wmidi::Note::from_u8_lossy(note),
        wmidi::U7::from_u8_lossy(velocity),
    );
    let mut bytes = vec![0u8; message.bytes_size()];
    message.copy_to_slice(&mut bytes).unwrap();
    bytes
}

/// Relies on `wmidi::MidiMessage::NoteOff` and `copy_to_slice`: a note-off is
/// the status `0x80` plus the channel index, then the note and the velocity.
#[verifier::external_body]
fn note_off_bytes(channel: u8, note: u8, velocity: u8) -> (r: Vec<u8>)
    requires
        channel < 16,
        note < 128,
        velocity < 128,
    ensures
        r@ == seq![(0x80 + channel) as u8, note, velocity],
{
    let message = wmidi::MidiMessage::NoteOff(
        wmidi::Channel::from_index(channel).unwrap(),
        wmidi::Note::from_u8_lossy(note),
        wmidi::U7::from_u8_lossy(velocity),
    );
    let mut bytes = vec![0u8; message.bytes_size()];
    message.copy_to_slice(&mut bytes).unwrap();
    bytes
}

/// Outbound notes go on the first channel (index 0).
pub const NOTE_CHANNEL: u8 = 0;

/// Outbound notes have this velocity.
pub const NOTE_VELOCITY: u8 = 100;

/// The bytes of a note-on for `note` on the note channel at the note velocity.
pub fn note_on_message(note: u8) -> (r: Vec<u8>)
    requires
        note < 128,
    ensures
        r@ == seq![0x90u8, note, 100u8],
{
    note_on_bytes(NOTE_CHANNEL, note, NOTE_VELOCITY)
}

/// The bytes of a note-off for `note` on the note channel at the note velocity.
pub fn note_off_message(note: u8) -> (r: Vec<u8>)
    requires
        note < 128,
    ensures
        r@ == seq![0x80u8, note, 100u8],
{
    note_off_bytes(NOTE_CHANNEL, note, NOTE_VELOCITY)
}

impl Message {
    pub fn new(timestamp: u64, message: MidiEvent) -> (r: Message)
        ensures
            r == (Message { timestamp, message }),
    {
        Message { timestamp, message }
    }

    /// Decodes the bytes of one MIDI message received at `timestamp`; a
    /// borrowed SysEx message gives `None`.
    pub fn from(timestamp: u64, bytes: &[u8]) -> (r: Result<Option<Message>, MessageError>)
        ensures
            bytes@.len() == 0 ==> (r matches Err(MessageError::InvalidBytes)),
            (bytes@.len() >= 1 && bytes@[0] == 0xF8) <==> (r matches Ok(Some(m)) && m == (Message {
                timestamp,
                message: MidiEvent::TimingClock,
            })),
            is_control_change_bytes(bytes@) ==> (r matches Ok(Some(m)) && m == (Message {
                timestamp,
                message: control_change_of(bytes@),
            })),
            (r matches Ok(Some(m)) && m.message is ControlChange) ==> is_control_change_bytes(bytes@),
    {
        match decode_midi_event(bytes) {
            Ok(Some(event)) => Ok(Some(Message::new(timestamp, event))),
            Ok(None) => Ok(None),
            Err(_) => Err(MessageError::InvalidBytes),
        }
    }
}

/// The value of a control change that `slider` sends, if `event` is one.
pub open spec fn slider_value(slider: MidiSlider, event: MidiEvent) -> Option<u8> {
    match event {
        MidiEvent::ControlChange { channel, function, value } => if channel == slider.channel
            && function == slider.control_change {
            Some(value)
        } else {
            None
        },
        _ => None,
    }
}

/// The last value among `messages` that `slider` sent.
pub open spec fn latest_value(slider: MidiSlider, messages: Seq<Message>) -> Option<u8>
    decreases messages.len(),
{
    if messages.len() == 0 {
        None
    } else {
        match slider_value(slider, messages.last().message) {
            Some(v) => Some(v),
            None => latest_value(slider, messages.drop_last()),
        }
    }
}

/// The value of the latest control change from `slider` among `messages`.
pub fn latest_control_value(slider: MidiSlider, messages: &[Message]) -> (r: Option<u8>)
    ensures
        r == latest_value(slider, messages@),
{
    let mut i: usize = messages.len();
    proof {
        assert(messages@.subrange(0, i as int) =~= messages@);
    }
    while i > 0
        invariant
            i <= messages@.len(),
            latest_value(slider, messages@) == latest_value(slider, messages@.subrange(0, i as int)),
        decreases i,
    {
        let message = messages[i - 1];
        proof {
            let prefix = messages@.subrange(0, i as int);
            assert(prefix.last() == message);
            assert(prefix.drop_last() =~= messages@.subrange(0, i - 1));
        }
        match message.message {
            MidiEvent::ControlChange { channel, function, value } => {
                if channel == slider.channel && function == slider.control_change {
                    return Some(value);
                }
            },
            _ => {},
        }
        i = i - 1;
    }
    None
}

/// Maps a control value in `0..=127` linearly onto `min..=max`, rounding down.
pub fn interpolate_control_value(min: u32, max: u32, value: u8) -> (r: u32)
    requires
        min <= max <= 0x00ff_ffff,
        value <= 127,
    ensures
        r == value * (max - min) / 127 + min,
        min <= r <= max,
{
    proof {
        assert(value * (max - min) <= 127 * (max - min)) by (nonlinear_arith)
            requires value <= 127, min <= max;
        assert(value * (max - min) / 127 <= (max - min)) by (nonlinear_arith)
            requires value * (max - min) <= 127 * (max - min), min <= max;
    }
    (value as u32) * (max - min) / (CONTROL_VALUE_MAX as u32) + min
}

/// A control value as a slider ratio, in steps of `1 / RATIO_SCALE`; a
/// value above the largest control value counts as the largest.
pub open spec fn ratio_of(value: u8) -> u32 {
    if value <= 127 {
        (value * 2) as u32
    } else {
        254
    }
}

/// The latest ratio that `slider` sent among `midi_messages`: 0 maps to 0
/// and 127 to the whole, `RATIO_SCALE`.
pub fn control_value_ratio_from_midi_messages(midi_messages: &[Message], slider: MidiSlider) -> (r:
    Option<u32>)
    ensures
        r == match latest_value(slider, midi_messages@) {
            Some(v) => Some(ratio_of(v)),
            None => None::<u32>,
        },
        r matches Some(x) ==> x <= RATIO_SCALE,
{
    let control_value = latest_control_value(slider, midi_messages);
    match control_value {
        Some(value) => {
            if value > CONTROL_VALUE_MAX {
                return Some(RATIO_SCALE);
            }
            Some(interpolate_control_value(0, RATIO_SCALE, value))
        },
        None => None,
    }
}

/// What a slider makes of one message: a ratio within the whole when the
/// message is a control change from that slider (0 gives none, 127 the
/// whole), and nothing for any other message.
pub proof fn lemma_slider_reads_only_its_controller(slider: MidiSlider, message: Message)
    ensures
        latest_value(slider, seq![message]) == slider_value(slider, message.message),
        slider_value(slider, message.message) matches Some(v) ==> ratio_of(v) <= RATIO_SCALE,
        ratio_of(0) == 0,
        ratio_of(127) == RATIO_SCALE,
        (message.message matches MidiEvent::ControlChange { channel, function, .. } && (channel
            != slider.channel || function != slider.control_change)) ==> latest_value(
            slider,
            seq![message],
        ) is None,
        !(message.message is ControlChange) ==> latest_value(slider, seq![message]) is None,
{
    let single = seq![message];
    assert(single.len() == 1);
    assert(single.last() == message);
    assert(single.drop_last() =~= Seq::<Message>::empty());
    assert(latest_value(slider, Seq::<Message>::empty()) is None);
}

/// The channel index of a channel numbered from 1 to 16.
pub fn channel_index_from_number(channel_number: u8) -> (r: Option<u8>)
    ensures
        r == if 1 <= channel_number <= 16 {
            Some((channel_number - 1) as u8)
        } else {
            None::<u8>
        },
{
    if 1 <= channel_number && channel_number <= 16 {
        Some(channel_number - 1)
    } else {
        None
    }
}

/// A control function number, which must be below 128.
pub fn control_function_from_number(value: u8) -> (r: Option<u8>)
    ensures
        r == if value < 128 { Some(value) } else { None::<u8> },
{
    if value <= CONTROL_VALUE_MAX {
        Some(value)
    } else {
        None
    }
}

} // verus!
