use elysium::midi::{parse_midi_message, MidiEvent, MidiState};

/// The wire grammar: status nibble 9 is note-on, 8 note-off, 14
/// pitch-bend; the low nibble is the channel, mapped to 1..=16.
#[test]
fn parse_recognized_messages() {
    assert_eq!(
        parse_midi_message(&vec![0x90, 69, 100]),
        Some(MidiEvent::NoteOn { channel: 1, note: 69, velocity: 100 })
    );
    assert_eq!(
        parse_midi_message(&vec![0x85, 10, 20]),
        Some(MidiEvent::NoteOff { channel: 6, note: 10, velocity: 20 })
    );
    // Pitch bend: lsb + 128 * msb; lsb 0, msb 64 is the centered 8192.
    assert_eq!(
        parse_midi_message(&vec![0xE3, 0, 64]),
        Some(MidiEvent::PitchBend { channel: 4, value: 8192 })
    );
    assert_eq!(
        parse_midi_message(&vec![0xEF, 127, 127]),
        Some(MidiEvent::PitchBend { channel: 16, value: 16383 })
    );
}

/// Malformed frames — wrong length, data bytes with the high bit set — and
/// message kinds the core ignores all decode to nothing.
#[test]
fn parse_rejects_malformed_and_ignored() {
    assert_eq!(parse_midi_message(&vec![]), None);
    assert_eq!(parse_midi_message(&vec![0x90]), None);
    assert_eq!(parse_midi_message(&vec![0x90, 69]), None);
    assert_eq!(parse_midi_message(&vec![0x90, 69, 100, 0]), None);
    assert_eq!(parse_midi_message(&vec![0x90, 200, 100]), None);
    assert_eq!(parse_midi_message(&vec![0x90, 69, 200]), None);
    // Control change, program change, aftertouch: ignored kinds.
    assert_eq!(parse_midi_message(&vec![0xB0, 1, 2]), None);
    assert_eq!(parse_midi_message(&vec![0xC0, 1, 2]), None);
    assert_eq!(parse_midi_message(&vec![0xA0, 1, 2]), None);
}

/// A note turned on and then off within the same block ends the block
/// absent from "turned on" and present in "turned off".
#[test]
fn reducer_on_then_off_nets_out() {
    let mut state = MidiState::new();
    let frames = vec![vec![0x90, 60, 100], vec![0x80, 60, 0]];
    state.process_midi_messages(&frames);
    assert_eq!(state.notes_turned_on().len(), 0);
    assert_eq!(state.notes_turned_off(), &vec![60u8]);
}

/// A re-trigger within a block keeps one entry per note, re-keyed to the
/// end of the trigger order with its latest velocity, and marks the note
/// turned off too — the explicit fresh-trigger policy.
#[test]
fn reducer_retrigger_is_last_writer() {
    let mut state = MidiState::new();
    let frames = vec![
        vec![0x90, 60, 10],
        vec![0x90, 61, 20],
        vec![0x90, 60, 30],
    ];
    state.process_midi_messages(&frames);
    assert_eq!(state.notes_turned_on(), &vec![(61u8, 20u8), (60, 30)]);
    assert_eq!(state.notes_turned_off(), &vec![60u8, 61]);
}

/// A malformed frame is skipped and has no effect on its neighbours.
#[test]
fn reducer_skips_malformed() {
    let mut state = MidiState::new();
    let frames = vec![vec![0x90, 60, 10], vec![0xFF, 0xFF], vec![0x90, 61, 20]];
    state.process_midi_messages(&frames);
    assert_eq!(state.notes_turned_on(), &vec![(60u8, 10u8), (61, 20)]);
}

/// The pitch-bend value persists across blocks; the on/off deltas are
/// cleared each block.
#[test]
fn reducer_bend_persists_across_blocks() {
    let mut state = MidiState::new();
    assert_eq!(state.pitch_bend(), 8192);
    state.process_midi_messages(&vec![vec![0xE0, 5, 70], vec![0x90, 60, 10]]);
    assert_eq!(state.pitch_bend(), 5 + 128 * 70);
    state.process_midi_messages(&vec![]);
    assert_eq!(state.pitch_bend(), 5 + 128 * 70);
    assert_eq!(state.notes_turned_on().len(), 0);
    assert_eq!(state.notes_turned_off().len(), 0);
}
