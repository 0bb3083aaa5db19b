use elysium::create_elysium_audio_processor;
use elysium::processor::ElysiumAudioProcessor;

const RATE: u64 = 44_100_000;

fn prepared(block: i32) -> ElysiumAudioProcessor {
    let mut processor = *create_elysium_audio_processor();
    processor.prepare_to_play(RATE, block);
    processor
}

/// A fresh processor has the default rate and no scratch capacity until
/// `prepare_to_play` sizes it.
#[test]
fn prepare_sizes_the_block() {
    let mut processor = *create_elysium_audio_processor();
    assert_eq!(processor.sample_rate_millihz(), 41_000_000);
    assert_eq!(processor.max_block_len(), 0);
    processor.prepare_to_play(RATE, 4);
    assert_eq!(processor.sample_rate_millihz(), RATE);
    assert_eq!(processor.max_block_len(), 4);
    processor.prepare_to_play(RATE, -7);
    assert_eq!(processor.max_block_len(), 0);
}

/// With no MIDI input every sample of the block is silent: no voice
/// contributes a point.
#[test]
fn empty_block_is_silent() {
    let mut processor = prepared(8);
    let out = processor.process_block(&vec![], 8);
    assert_eq!(out.len(), 8);
    for row in &out {
        assert!(row.is_empty());
    }
}

/// One note-on: every sample carries exactly one point, advancing at the
/// note's tabulated frequency from phase zero.
#[test]
fn one_note_renders_in_sequence() {
    let mut processor = prepared(4);
    let out = processor.process_block(&vec![vec![0x90, 69, 127]], 4);
    assert_eq!(out.len(), 4);
    let expected = [0u64, 440_000, 880_000, 1_320_000];
    for (s, row) in out.iter().enumerate() {
        assert_eq!(row.len(), 1);
        assert_eq!(row[0].phase.numerator, expected[s]);
        assert_eq!(row[0].phase.denominator, RATE);
        assert_eq!(row[0].velocity, 127);
    }
}

/// The phase is continuous across blocks: the next block picks up where
/// the last one stopped.
#[test]
fn phase_is_continuous_across_blocks() {
    let mut processor = prepared(4);
    processor.process_block(&vec![vec![0x90, 69, 127]], 4);
    let out = processor.process_block(&vec![], 4);
    let expected = [1_760_000u64, 2_200_000, 2_640_000, 3_080_000];
    for (s, row) in out.iter().enumerate() {
        assert_eq!(row.len(), 1);
        assert_eq!(row[0].phase.numerator, expected[s]);
    }
}

/// Two sounding notes contribute two points per sample, in pool order.
#[test]
fn two_notes_mix() {
    let mut processor = prepared(2);
    let out = processor.process_block(&vec![vec![0x90, 60, 100], vec![0x90, 64, 80]], 2);
    for row in &out {
        assert_eq!(row.len(), 2);
        assert_eq!(row[0].velocity, 100);
        assert_eq!(row[1].velocity, 80);
    }
    assert_eq!(out[1][0].phase.numerator, 261_626);
    assert_eq!(out[1][1].phase.numerator, 329_628);
}

/// A note-off in a later block silences the voice.
#[test]
fn note_off_silences() {
    let mut processor = prepared(4);
    processor.process_block(&vec![vec![0x90, 69, 127]], 4);
    let out = processor.process_block(&vec![vec![0x80, 69, 0]], 4);
    for row in &out {
        assert!(row.is_empty());
    }
}

/// A note released and re-triggered in the same block ends the block
/// sounding the new trigger, from phase zero.
#[test]
fn off_then_on_same_block_retriggers() {
    let mut processor = prepared(2);
    processor.process_block(&vec![vec![0x90, 69, 127]], 2);
    let out = processor.process_block(
        &vec![vec![0x80, 69, 0], vec![0x90, 69, 64]],
        2,
    );
    assert_eq!(out[0].len(), 1);
    assert_eq!(out[0][0].phase.numerator, 0);
    assert_eq!(out[0][0].velocity, 64);
}

/// A pitch-bend message reaches every sounding voice in the same block.
#[test]
fn pitch_bend_applies_to_block() {
    let mut processor = prepared(2);
    let out = processor.process_block(
        &vec![vec![0x90, 69, 127], vec![0xE0, 127, 127]],
        2,
    );
    assert_eq!(out[0][0].phase.numerator, 0);
    assert_eq!(out[1][0].phase.numerator, 493_876);
}

/// Every audible block is admissible at audio rates; at a sampling rate
/// below a note's bend ceiling the block is rejected as unrenderable.
#[test]
fn admissibility_guards_the_rate() {
    let processor = prepared(4);
    assert!(processor.block_admissible(&vec![vec![0x90, 127, 127]]));
    let mut low = *create_elysium_audio_processor();
    low.prepare_to_play(10_000_000, 4);
    assert!(low.block_admissible(&vec![vec![0x90, 60, 100]]));
    assert!(!low.block_admissible(&vec![vec![0x90, 127, 100]]));
}

/// Malformed MIDI frames are invisible to the listener: the block renders
/// as if they were absent.
#[test]
fn malformed_frames_are_skipped() {
    let mut processor = prepared(2);
    let out = processor.process_block(
        &vec![vec![0x99], vec![0x90, 69, 127], vec![0x00, 0x00, 0x00]],
        2,
    );
    assert_eq!(out[0].len(), 1);
    assert_eq!(out[1][0].phase.numerator, 440_000);
}

/// Seventeen note-ons overflow the sixteen-voice pool: the seventeenth
/// steals the earliest-triggered voice, so sixteen distinct notes sound
/// and the first one is gone.
#[test]
fn pool_overflow_steals() {
    let mut processor = prepared(1);
    let mut frames = Vec::new();
    for key in 40..57u8 {
        frames.push(vec![0x90, key, 100]);
    }
    let out = processor.process_block(&frames, 1);
    assert_eq!(out[0].len(), 16);
    // Voice 0 was stolen for the seventeenth note (key 56).
    assert_eq!(out[0][0].phase.denominator, RATE);
    let velocities: Vec<u8> = out[0].iter().map(|p| p.velocity).collect();
    assert_eq!(velocities, vec![100; 16]);
}
