use lv2::midi::{
    is_system_message, is_voice_message, message_type, note_event, NoteEvent, MSG_CLOCK,
    MSG_INVALID, MSG_NOTE_OFF, MSG_NOTE_ON, MSG_SYSTEM_EXCLUSIVE,
};

#[test]
fn voice_messages_are_0x80_to_0xef() {
    assert!(!is_voice_message(0x7F));
    assert!(is_voice_message(0x80));
    assert!(is_voice_message(0x9A));
    assert!(is_voice_message(0xEF));
    assert!(!is_voice_message(0xF0));
}

#[test]
fn system_messages_skip_undefined_bytes() {
    assert!(is_system_message(0xF0));
    assert!(is_system_message(0xF8));
    assert!(is_system_message(0xFF));
    for b in [0xF4u8, 0xF5, 0xF7, 0xF9, 0xFD] {
        assert!(!is_system_message(b));
    }
    assert!(!is_system_message(0x90));
}

#[test]
fn message_type_drops_the_channel() {
    assert_eq!(message_type(0x93), MSG_NOTE_ON);
    assert_eq!(message_type(0x8F), MSG_NOTE_OFF);
    assert_eq!(message_type(0xF0), MSG_SYSTEM_EXCLUSIVE);
    assert_eq!(message_type(0xF8), MSG_CLOCK);
    assert_eq!(message_type(0xF4), MSG_INVALID);
    assert_eq!(message_type(0x40), MSG_INVALID);
}

#[test]
fn note_on_with_velocity() {
    assert_eq!(note_event(&[0x90, 69, 127]), Some(NoteEvent::On { key: 69, velocity: 127 }));
    assert_eq!(note_event(&[0x95, 60, 1]), Some(NoteEvent::On { key: 60, velocity: 1 }));
}

#[test]
fn note_on_with_zero_velocity_is_note_off() {
    assert_eq!(note_event(&[0x90, 69, 0]), Some(NoteEvent::Off { key: 69 }));
}

#[test]
fn explicit_note_off() {
    assert_eq!(note_event(&[0x80, 69, 64]), Some(NoteEvent::Off { key: 69 }));
    assert_eq!(note_event(&[0x81, 12]), Some(NoteEvent::Off { key: 12 }));
}

#[test]
fn other_or_short_messages_are_not_notes() {
    assert_eq!(note_event(&[0xB0, 7, 100]), None);
    assert_eq!(note_event(&[0x90, 69]), None);
    assert_eq!(note_event(&[0x90]), None);
    assert_eq!(note_event(&[]), None);
    assert_eq!(note_event(&[0x90, 0x80, 10]), None);
}
