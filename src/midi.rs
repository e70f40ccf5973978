//! Recognition of MIDI status bytes.
use vstd::prelude::*;

verus! {

/// A MIDI status byte, reduced to its message kind.
pub type Message = u8;

pub const MSG_INVALID: Message = 0x00;
pub const MSG_NOTE_OFF: Message = 0x80;
pub const MSG_NOTE_ON: Message = 0x90;
pub const MSG_NOTE_PRESSURE: Message = 0xA0;
pub const MSG_CONTROLLER: Message = 0xB0;
pub const MSG_PGM_CHANGE: Message = 0xC0;
pub const MSG_CHANNEL_PRESSURE: Message = 0xD0;
pub const MSG_BENDER: Message = 0xE0;
pub const MSG_SYSTEM_EXCLUSIVE: Message = 0xF0;
pub const MSG_MTC_QUARTER: Message = 0xF1;
pub const MSG_SONG_POS: Message = 0xF2;
pub const MSG_SONG_SELECT: Message = 0xF3;
pub const MSG_TUNE_REQUEST: Message = 0xF6;
pub const MSG_CLOCK: Message = 0xF8;
pub const MSG_START: Message = 0xFA;
pub const MSG_CONTINUE: Message = 0xFB;
pub const MSG_STOP: Message = 0xFC;
pub const MSG_ACTIVE_SENSE: Message = 0xFE;
pub const MSG_RESET: Message = 0xFF;

/// Channel-voice messages: status bytes 0x80 to 0xEF.
pub open spec fn spec_is_voice_message(msg: u8) -> bool {
    0x80 <= msg < 0xF0
}

/// System messages: status bytes 0xF0 to 0xFF, except 0xF4, 0xF5, 0xF7,
/// 0xF9 and 0xFD.
pub open spec fn spec_is_system_message(msg: u8) -> bool {
    msg >= 0xF0 && msg != 0xF4 && msg != 0xF5 && msg != 0xF7 && msg != 0xF9 && msg != 0xFD
}

/// The message kind of a status byte: a voice message loses its channel
/// nibble, a system message is its own kind, anything else is invalid.
pub open spec fn spec_message_type(msg: u8) -> Message {
    if spec_is_voice_message(msg) {
        (msg - msg % 16) as u8
    } else if spec_is_system_message(msg) {
        msg
    } else {
        MSG_INVALID
    }
}

pub fn is_voice_message(msg: u8) -> (r: bool)
    ensures
        r == spec_is_voice_message(msg),
{
    msg >= 0x80 && msg < 0xF0
}

pub fn is_system_message(msg: u8) -> (r: bool)
    ensures
        r == spec_is_system_message(msg),
{
    match msg {
        0xF4 | 0xF5 | 0xF7 | 0xF9 | 0xFD => false,
        _ => {
            assert((msg & 0xF0 == 0xF0) == (msg >= 0xF0)) by (bit_vector);
            msg & 0xF0 == 0xF0
        },
    }
}

pub fn message_type(msg: u8) -> (r: Message)
    ensures
        r == spec_message_type(msg),
{
    if is_voice_message(msg) {
        assert(msg & 0xF0 == msg - msg % 16) by (bit_vector);
        msg & 0xF0
    } else if is_system_message(msg) {
        msg
    } else {
        MSG_INVALID
    }
}

/// A note message recognised in an event's content.
#[derive(Clone, Copy, Debug, PartialEq, Eq, Structural)]
pub enum NoteEvent {
    On { key: u8, velocity: u8 },
    Off { key: u8 },
}

/// The note message that `msg` holds, if any: a note-on status with a
/// nonzero velocity is a note-on, a note-on status with velocity zero or a
/// note-off status is a note-off. Key and velocity are data bytes, below
/// 0x80; a message too short for them is no note message.
pub open spec fn spec_note_event(msg: Seq<u8>) -> Option<NoteEvent> {
    if msg.len() >= 3 && spec_message_type(msg[0]) == MSG_NOTE_ON && msg[1] < 0x80 && msg[2]
        < 0x80 {
        if msg[2] > 0 {
            Some(NoteEvent::On { key: msg[1], velocity: msg[2] })
        } else {
            Some(NoteEvent::Off { key: msg[1] })
        }
    } else if msg.len() >= 2 && spec_message_type(msg[0]) == MSG_NOTE_OFF && msg[1] < 0x80 {
        Some(NoteEvent::Off { key: msg[1] })
    } else {
        None
    }
}

/// Recognises a note-on or note-off message.
pub fn note_event(msg: &[u8]) -> (r: Option<NoteEvent>)
    ensures
        r == spec_note_event(msg@),
{
    if msg.len() < 2 {
        return None;
    }
    let kind = message_type(msg[0]);
    if kind == MSG_NOTE_ON && msg.len() >= 3 && msg[1] < 0x80 && msg[2] < 0x80 {
        if msg[2] > 0 {
            Some(NoteEvent::On { key: msg[1], velocity: msg[2] })
        } else {
            Some(NoteEvent::Off { key: msg[1] })
        }
    } else if kind == MSG_NOTE_OFF && msg[1] < 0x80 {
        Some(NoteEvent::Off { key: msg[1] })
    } else {
        None
    }
}

} // verus!
