use elysium::note::MidiNote;
use elysium::voice::Voice;

fn note(key: u8, velocity: u8) -> MidiNote {
    MidiNote { channel: 1, note: key, velocity }
}

/// A voice that never received `start_playing` produces only silent
/// frames, and pulling them does not disturb its state.
#[test]
fn idle_voice_is_silent() {
    let mut voice = Voice::new(44_100_000);
    assert!(!voice.is_producing_samples());
    for _ in 0..16 {
        let frame = voice.next_frame();
        assert!(frame.sample.is_none());
    }
    assert_eq!(voice.current_note(), None);
    assert_eq!(voice.last_played_at(), 0);
}

/// A sounding voice yields its phase and velocity, advancing one sample
/// per frame at the note's tabulated frequency (A4 = 440 Hz exactly).
#[test]
fn sounding_voice_advances() {
    let mut voice = Voice::new(44_100_000);
    voice.start_playing(note(69, 127), 1);
    assert!(voice.is_producing_samples());
    assert_eq!(voice.current_note(), Some(note(69, 127)));
    assert_eq!(voice.currently_playing(), Some(note(69, 127)));
    assert_eq!(voice.last_played_at(), 1);
    for k in 0..100u64 {
        let frame = voice.next_frame();
        let point = frame.sample.expect("sounding voice must produce a point");
        assert_eq!(point.velocity, 127);
        assert_eq!(point.phase.numerator, (k * 440_000) % 44_100_000);
        assert_eq!(point.phase.denominator, 44_100_000);
    }
}

/// Starting a second note back-to-back resets the phase to exactly zero.
#[test]
fn retrigger_resets_phase() {
    let mut voice = Voice::new(44_100_000);
    voice.start_playing(note(69, 100), 1);
    voice.next_frame();
    voice.next_frame();
    voice.next_frame();
    voice.start_playing(note(60, 90), 2);
    let frame = voice.next_frame();
    let point = frame.sample.unwrap();
    assert_eq!(point.phase.numerator, 0);
    assert_eq!(point.velocity, 90);
    assert_eq!(voice.last_played_at(), 2);
}

/// Stopping silences the voice without touching its phase or frequency.
#[test]
fn stop_playing_goes_silent() {
    let mut voice = Voice::new(44_100_000);
    voice.start_playing(note(69, 100), 1);
    voice.next_frame();
    voice.stop_playing();
    assert!(!voice.is_producing_samples());
    assert_eq!(voice.current_note(), None);
    assert!(voice.next_frame().sample.is_none());
}

/// A centered bend leaves the note at its tabulated frequency; a full
/// upward bend interpolates toward the note two semitones up, with the
/// wire's 8191/8192 maximum deflection; a full downward bend lands exactly
/// on the note two semitones down.
#[test]
fn pitch_bend_interpolates() {
    // Full up: 440000 + (493883 - 440000) * 8191 / 8192, rounded down.
    let mut voice = Voice::new(44_100_000);
    voice.start_playing(note(69, 127), 1);
    voice.set_pitch_bend(16383);
    voice.next_frame();
    let p = voice.next_frame().sample.unwrap();
    assert_eq!(p.phase.numerator, 493_876);

    // Full down lands exactly on the tabulated E4.
    let mut voice = Voice::new(44_100_000);
    voice.start_playing(note(69, 127), 1);
    voice.set_pitch_bend(0);
    voice.next_frame();
    let p = voice.next_frame().sample.unwrap();
    assert_eq!(p.phase.numerator, 391_995);

    // Centered: the tabulated A4.
    let mut voice = Voice::new(44_100_000);
    voice.start_playing(note(69, 127), 1);
    voice.set_pitch_bend(8192);
    voice.next_frame();
    let p = voice.next_frame().sample.unwrap();
    assert_eq!(p.phase.numerator, 440_000);
}

/// Bend values beyond the 14-bit range are clamped, not rejected.
#[test]
fn pitch_bend_clamps() {
    let mut a = Voice::new(44_100_000);
    a.start_playing(note(69, 127), 1);
    a.set_pitch_bend(u16::MAX);
    a.next_frame();
    let mut b = Voice::new(44_100_000);
    b.start_playing(note(69, 127), 1);
    b.set_pitch_bend(16383);
    b.next_frame();
    assert_eq!(a.next_frame().sample, b.next_frame().sample);
}

/// At the top of the table the upward bend has nothing to reach: the
/// frequency stays the note's own.
#[test]
fn pitch_bend_at_table_edge() {
    let mut voice = Voice::new(44_100_000);
    voice.start_playing(note(127, 64), 1);
    voice.set_pitch_bend(16383);
    voice.next_frame();
    let p = voice.next_frame().sample.unwrap();
    assert_eq!(p.phase.numerator, 12_543_854);
}
