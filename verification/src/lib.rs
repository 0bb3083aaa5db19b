//! Signal-generation core of a polyphonic software synthesizer.
//!
//! The core turns a per-block stream of note-on/note-off/pitch-bend events
//! into a continuous multi-channel signal: a [`phasor::Phasor`] accumulates
//! a cyclic phase, a [`voice::Voice`] couples one phasor to one sounding
//! note, a [`midi::MidiState`] reduces a block's raw MIDI bytes to note
//! deltas, and an [`processor::ElysiumAudioProcessor`] reconciles a fixed
//! pool of voices with those deltas and renders one block of frames.
//!
//! All quantities are exact: frequencies and sampling rates are integers in
//! millihertz, and a phase position is the rational
//! `numerator / denominator` in `[0, 1)`.  Turning a phase into a waveform
//! sample — `sin(2 * pi * phase) * velocity / 127`, broadcast identically
//! to every channel and scaled by a headroom factor — is left to the
//! embedding host, which owns the floating-point output buffers.

use vstd::prelude::*;

pub mod midi;
pub mod note;
pub mod phasor;
pub mod pool;
pub mod processor;
pub mod voice;

verus! {

/// Creates a boxed processor in its default configuration, ready for
/// `prepare_to_play`.
pub fn create_elysium_audio_processor() -> (r: Box<processor::ElysiumAudioProcessor>)
    ensures
        r.wf(),
        r@ == processor::ProcessorModel::fresh(
            processor::DEFAULT_SAMPLE_RATE_MILLIHZ as int,
            0,
        ),
{
    Box::new(processor::ElysiumAudioProcessor::default())
}

} // verus!
