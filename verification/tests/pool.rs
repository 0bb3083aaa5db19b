use elysium::midi::MidiState;
use elysium::note::MidiNote;
use elysium::pool::{apply_note_offs, apply_note_ons, apply_pitch_bend_to_sounding};
use elysium::voice::Voice;

const RATE: u64 = 44_100_000;

fn pool(capacity: usize) -> Vec<Voice> {
    let mut voices = Vec::new();
    for _ in 0..capacity {
        voices.push(Voice::new(RATE));
    }
    voices
}

fn sounding(voices: &Vec<Voice>) -> Vec<Option<u8>> {
    voices.iter().map(|v| v.current_note().map(|n| n.note)).collect()
}

/// A note-off for a note that is not currently sounding is a no-op: no
/// panic, no state change.
#[test]
fn note_off_not_sounding_is_noop() {
    let mut voices = pool(3);
    let clock = apply_note_ons(&mut voices, &vec![(60, 100)], 1);
    assert_eq!(clock, 2);
    let before = sounding(&voices);
    let stamps: Vec<u64> = voices.iter().map(|v| v.last_played_at()).collect();
    apply_note_offs(&mut voices, &vec![61, 72, 0]);
    assert_eq!(sounding(&voices), before);
    let stamps_after: Vec<u64> = voices.iter().map(|v| v.last_played_at()).collect();
    assert_eq!(stamps_after, stamps);
}

/// A note-off stops only the first voice sounding that note.
#[test]
fn note_off_stops_first_match() {
    let mut voices = pool(3);
    apply_note_ons(&mut voices, &vec![(60, 100), (61, 90)], 1);
    assert_eq!(sounding(&voices), vec![Some(60), Some(61), None]);
    apply_note_offs(&mut voices, &vec![60]);
    assert_eq!(sounding(&voices), vec![None, Some(61), None]);
}

/// With pool capacity P and P + 1 note-ons in strictly increasing trigger
/// order, the first P land on distinct idle voices in order and the last
/// steals the voice whose recency stamp is earliest — voice 0.
#[test]
fn overflow_steals_earliest_triggered() {
    let mut voices = pool(3);
    let ons = vec![(60, 10), (61, 20), (62, 30), (63, 40)];
    let clock = apply_note_ons(&mut voices, &ons, 1);
    assert_eq!(clock, 5);
    assert_eq!(sounding(&voices), vec![Some(63), Some(61), Some(62)]);
    assert_eq!(voices[0].last_played_at(), 4);
    assert_eq!(voices[1].last_played_at(), 2);
    assert_eq!(voices[2].last_played_at(), 3);
}

/// With all voices sounding, repeated overflow keeps stealing the
/// least recently triggered voice, ties broken by pool order.
#[test]
fn steal_is_least_recently_triggered() {
    let mut voices = pool(2);
    apply_note_ons(&mut voices, &vec![(60, 10), (61, 20)], 1);
    // Voice 0 (stamp 1) is the least recent: stolen first.
    let clock = apply_note_ons(&mut voices, &vec![(70, 30)], 3);
    assert_eq!(sounding(&voices), vec![Some(70), Some(61)]);
    // Now voice 1 (stamp 2) is the least recent.
    apply_note_ons(&mut voices, &vec![(71, 40)], clock);
    assert_eq!(sounding(&voices), vec![Some(70), Some(71)]);
}

/// End-to-end reconciliation order on a capacity-1 pool: two notes triggered in one
/// block before any render leave the voice sounding the later trigger.
#[test]
fn single_voice_retrigger_last_writer_wins() {
    let mut voices = pool(1);
    let mut state = MidiState::new();
    state.process_midi_messages(&vec![vec![0x90, 69, 100], vec![0x90, 60, 90]]);
    apply_note_offs(&mut voices, state.notes_turned_off());
    apply_note_ons(&mut voices, state.notes_turned_on(), 1);
    apply_pitch_bend_to_sounding(&mut voices, state.pitch_bend());
    assert_eq!(sounding(&voices), vec![Some(60)]);
    assert_eq!(
        voices[0].current_note(),
        Some(MidiNote { channel: 1, note: 60, velocity: 90 })
    );
}

/// The bend pass reaches sounding voices only.
#[test]
fn bend_pass_skips_idle_voices() {
    let mut voices = pool(2);
    apply_note_ons(&mut voices, &vec![(69, 127)], 1);
    apply_pitch_bend_to_sounding(&mut voices, 16383);
    // Voice 0 sounds A4 bent upward; voice 1 stays idle and silent.
    voices[0].next_frame();
    let p = voices[0].next_frame().sample.unwrap();
    assert_eq!(p.phase.numerator, 493_876);
    assert!(voices[1].next_frame().sample.is_none());
}
