//! A playable synth voice.
//!
//! A [`Voice`] couples one [`Phasor`] to the state of a single currently
//! sounding (or idle) note: identity, velocity, pitch bend and a recency
//! stamp.  Each pulled frame is one sample point — a phase position and a
//! velocity — broadcast identically to every output channel; the host turns
//! a point into the waveform value `sin(2 * pi * phase) * velocity / 127`.

use crate::note::{
    effective_freq_millihz, lemma_bend_delta_le, max_bent_freq_millihz, note_freq_millihz,
    note_frequency_millihz, MidiNote, BEND_SEMITONES, PITCH_BEND_CENTER, PITCH_BEND_MAX,
};
use crate::phasor::{Phase, Phasor, PhasorModel, MAX_SAMPLE_RATE_MILLIHZ};
use vstd::arithmetic::div_mod::{
    lemma_add_mod_noop, lemma_add_mod_noop_right, lemma_mod_bound, lemma_small_mod,
};
use vstd::prelude::*;

verus! {

/// One voice's mono contribution to one output sample, standing for the
/// waveform value `sin(2 * pi * phase) * velocity / 127`.
#[derive(Clone, Copy, Debug, PartialEq, Eq, Structural)]
pub struct SamplePoint {
    pub phase: Phase,
    pub velocity: u8,
}

/// One multi-channel frame from a voice.  Every output channel carries the
/// same value: the sample point's waveform value while sounding, silence
/// (all zeros) while idle.
#[derive(Clone, Copy, Debug, PartialEq, Eq)]
pub struct Frame {
    pub sample: Option<SamplePoint>,
}

/// A raw pitch-bend value clamped to the admissible 14-bit range.
pub open spec fn clamped_bend(bend: int) -> int {
    if bend > PITCH_BEND_MAX {
        PITCH_BEND_MAX as int
    } else {
        bend
    }
}

/// Mathematical model of a [`Voice`].
pub ghost struct VoiceModel {
    pub phasor: PhasorModel,
    pub last_played_at: int,
    pub playing: Option<MidiNote>,
    pub pitch_bend: int,
}

impl VoiceModel {
    /// The voice invariant, short of frequency consistency: a well-formed
    /// phasor, an in-range bend value, and — while sounding — a well-formed
    /// note whose whole bend range fits under the sampling rate.
    pub open spec fn wf_base(self) -> bool {
        &&& self.phasor.wf()
        &&& 0 <= self.last_played_at <= u64::MAX
        &&& 0 <= self.pitch_bend <= PITCH_BEND_MAX
        &&& (self.playing.is_some() ==> self.playing.unwrap().wf()
            && max_bent_freq_millihz(self.playing.unwrap().note) <= self.phasor.sample_rate)
    }

    /// The full voice invariant: while sounding, the phasor's frequency is
    /// exactly the note's effective frequency under the current bend.
    pub open spec fn wf(self) -> bool {
        &&& self.wf_base()
        &&& (self.playing.is_some() ==> self.phasor.freq == effective_freq_millihz(
            self.playing.unwrap().note,
            self.pitch_bend,
        ))
    }

    /// True iff the voice is currently sounding a note.
    pub open spec fn is_sounding(self) -> bool {
        self.playing.is_some()
    }

    /// The model after starting `note` at instant `now`: the note is stored,
    /// the recency stamp taken, the phase reset to zero and the frequency
    /// recomputed under the voice's current bend.
    pub open spec fn started(self, note: MidiNote, now: int) -> VoiceModel {
        VoiceModel {
            phasor: PhasorModel {
                sample_rate: self.phasor.sample_rate,
                freq: effective_freq_millihz(note.note, self.pitch_bend),
                phase: 0,
            },
            last_played_at: now,
            playing: Some(note),
            pitch_bend: self.pitch_bend,
        }
    }

    /// The model after stopping: no note sounds; phase and frequency are
    /// left as they are.
    pub open spec fn stopped(self) -> VoiceModel {
        VoiceModel {
            phasor: self.phasor,
            last_played_at: self.last_played_at,
            playing: None,
            pitch_bend: self.pitch_bend,
        }
    }

    /// The model after a bend update: the bend is stored and — only while
    /// sounding — the frequency recomputed.
    pub open spec fn bent(self, bend: int) -> VoiceModel {
        VoiceModel {
            phasor: PhasorModel {
                sample_rate: self.phasor.sample_rate,
                freq: if self.playing.is_some() {
                    effective_freq_millihz(self.playing.unwrap().note, bend)
                } else {
                    self.phasor.freq
                },
                phase: self.phasor.phase,
            },
            last_played_at: self.last_played_at,
            playing: self.playing,
            pitch_bend: bend,
        }
    }

    /// The model after pulling `n` frames: a sounding voice's phase advances
    /// `n` steps; an idle voice is untouched.
    pub open spec fn advanced(self, n: nat) -> VoiceModel {
        if self.is_sounding() {
            VoiceModel {
                phasor: PhasorModel {
                    sample_rate: self.phasor.sample_rate,
                    freq: self.phasor.freq,
                    phase: (self.phasor.phase + n * self.phasor.freq) % self.phasor.sample_rate,
                },
                last_played_at: self.last_played_at,
                playing: self.playing,
                pitch_bend: self.pitch_bend,
            }
        } else {
            self
        }
    }

    /// The sample point a sounding voice contributes `s` steps from its
    /// current state.
    pub open spec fn point_at(self, s: nat) -> SamplePoint {
        SamplePoint {
            phase: Phase {
                numerator: ((self.phasor.phase + s * self.phasor.freq)
                    % self.phasor.sample_rate) as u64,
                denominator: self.phasor.sample_rate as u64,
            },
            velocity: self.playing.unwrap().velocity,
        }
    }
}

/// Represents a playable synth voice that can generate a multi-channel
/// signal, one frame per call.
#[derive(Clone, Copy, Debug)]
pub struct Voice {
    phasor: Phasor,
    last_played_at: u64,
    playing: Option<MidiNote>,
    pitch_bend: u16,
}

impl View for Voice {
    type V = VoiceModel;

    closed spec fn view(&self) -> VoiceModel {
        VoiceModel {
            phasor: self.phasor@,
            last_played_at: self.last_played_at as int,
            playing: self.playing,
            pitch_bend: self.pitch_bend as int,
        }
    }
}

impl Voice {
    pub open spec fn wf(self) -> bool {
        self@.wf()
    }

    /// Creates an idle voice for a given sampling rate (millihertz), with a
    /// centered bend and a recency stamp of zero — older than any started
    /// note.
    pub fn new(sample_rate: u64) -> (r: Self)
        requires
            0 < sample_rate <= MAX_SAMPLE_RATE_MILLIHZ,
        ensures
            r.wf(),
            r@.phasor.sample_rate == sample_rate,
            r@.phasor.freq == 0,
            r@.phasor.phase == 0,
            r@.last_played_at == 0,
            r@.playing.is_none(),
            r@.pitch_bend == PITCH_BEND_CENTER,
    {
        Voice {
            phasor: Phasor::new(sample_rate, 0),
            last_played_at: 0,
            playing: None,
            pitch_bend: PITCH_BEND_CENTER,
        }
    }

    /// Recomputes the phasor's frequency from the sounding note and the
    /// current bend; does nothing while idle.
    fn update_freq(&mut self)
        requires
            old(self)@.wf_base(),
        ensures
            final(self).wf(),
            final(self)@.phasor.sample_rate == old(self)@.phasor.sample_rate,
            final(self)@.phasor.phase == old(self)@.phasor.phase,
            final(self)@.last_played_at == old(self)@.last_played_at,
            final(self)@.playing == old(self)@.playing,
            final(self)@.pitch_bend == old(self)@.pitch_bend,
            final(self)@.phasor.freq == if old(self)@.playing.is_some() {
                effective_freq_millihz(old(self)@.playing.unwrap().note, old(self)@.pitch_bend)
            } else {
                old(self)@.phasor.freq
            },
    {
        if let Some(playing) = self.playing {
            let base = note_freq_millihz(playing.note);
            let eff: u64;
            if self.pitch_bend >= PITCH_BEND_CENTER {
                let target = if playing.note <= 127 - BEND_SEMITONES {
                    note_freq_millihz(playing.note + BEND_SEMITONES)
                } else {
                    base
                };
                let diff = if target >= base {
                    target - base
                } else {
                    base - target
                };
                let amount = self.pitch_bend - PITCH_BEND_CENTER;
                proof {
                    lemma_bend_delta_le(diff as int, amount as int);
                }
                eff = base + diff * (amount as u64) / (PITCH_BEND_CENTER as u64);
            } else {
                let target = if playing.note >= BEND_SEMITONES {
                    note_freq_millihz(playing.note - BEND_SEMITONES)
                } else {
                    base
                };
                let diff = if target >= base {
                    target - base
                } else {
                    base - target
                };
                let amount = PITCH_BEND_CENTER - self.pitch_bend;
                proof {
                    lemma_bend_delta_le(diff as int, amount as int);
                }
                eff = base - diff * (amount as u64) / (PITCH_BEND_CENTER as u64);
            }
            self.phasor.set_freq(eff);
        }
    }

    /// Updates the voice's pitch bend, clamping it to the 14-bit range, and
    /// recomputes the frequency of a sounding note.
    pub fn set_pitch_bend(&mut self, pitch_bend: u16)
        requires
            old(self).wf(),
        ensures
            final(self).wf(),
            final(self)@ == old(self)@.bent(clamped_bend(pitch_bend as int)),
    {
        self.pitch_bend = if pitch_bend > PITCH_BEND_MAX {
            PITCH_BEND_MAX
        } else {
            pitch_bend
        };
        self.update_freq();
    }

    /// Tells this voice to start playing a MIDI note at instant `now`: any
    /// current note is force-stopped, the recency stamp taken, the phase
    /// reset to exactly zero and the frequency recomputed.
    ///
    /// The note's whole bend range must fit under the voice's sampling
    /// rate.
    pub fn start_playing(&mut self, note: MidiNote, now: u64)
        requires
            old(self).wf(),
            note.wf(),
            max_bent_freq_millihz(note.note) <= old(self)@.phasor.sample_rate,
        ensures
            final(self).wf(),
            final(self)@ == old(self)@.started(note, now as int),
    {
        self.stop_playing();
        self.last_played_at = now;
        self.playing = Some(note);
        self.phasor.reset();
        self.update_freq();
    }

    /// Tells this voice to stop playing: the note is cleared; phase and
    /// frequency state are left as they are.
    pub fn stop_playing(&mut self)
        requires
            old(self).wf(),
        ensures
            final(self).wf(),
            final(self)@ == old(self)@.stopped(),
    {
        self.playing = None;
    }

    /// The MIDI note that is currently playing, if any.
    pub fn current_note(&self) -> (r: Option<MidiNote>)
        ensures
            r == self@.playing,
    {
        self.playing
    }

    /// The MIDI note that is currently playing, if any (an alias kept for
    /// callers of the older name).
    pub fn currently_playing(&self) -> (r: Option<MidiNote>)
        ensures
            r == self@.playing,
    {
        self.playing
    }

    /// True iff a call to `next_frame` would produce non-silent values.
    pub fn is_producing_samples(&self) -> (r: bool)
        ensures
            r == self@.is_sounding(),
    {
        self.playing.is_some()
    }

    /// The instant of the most recent `start_playing` call, or zero — the
    /// creation stamp — if the voice has never played.
    pub fn last_played_at(&self) -> (r: u64)
        ensures
            r == self@.last_played_at,
    {
        self.last_played_at
    }

    /// Pulls the next frame.  A sounding voice advances its phasor by
    /// exactly one sample and contributes its current phase and velocity;
    /// an idle voice returns silence and is left untouched.
    pub fn next_frame(&mut self) -> (r: Frame)
        requires
            old(self).wf(),
        ensures
            final(self).wf(),
            old(self)@.is_sounding() ==> r.sample == Some(old(self)@.point_at(0))
                && final(self)@ == old(self)@.advanced(1),
            !old(self)@.is_sounding() ==> r.sample.is_none() && final(self)@ == old(self)@,
    {
        let ghost pre = self@;
        if !self.is_producing_samples() {
            return Frame { sample: None };
        }
        if let Some(playing) = self.playing {
            let phase = self.phasor.next_phase();
            proof {
                lemma_small_mod(pre.phasor.phase as nat, pre.phasor.sample_rate as nat);
            }
            Frame { sample: Some(SamplePoint { phase, velocity: playing.velocity }) }
        } else {
            Frame { sample: None }
        }
    }
}

/// Stepping a sounding voice sample by sample agrees with the closed
/// forms: the point pulled after `s` advances is `point_at(s)`, one more
/// advance lands on `advanced(s + 1)`, and no advance at all is the
/// identity.
pub proof fn lemma_advanced_step(v: VoiceModel, s: nat)
    requires
        v.wf(),
        v.is_sounding(),
    ensures
        v.advanced(s).wf(),
        v.advanced(s).point_at(0) == v.point_at(s),
        v.advanced(s).advanced(1) == v.advanced((s + 1) as nat),
        v.advanced(0) == v,
{
    let p = v.phasor.phase;
    let f = v.phasor.freq;
    let m = v.phasor.sample_rate;
    lemma_small_mod(p as nat, m as nat);
    lemma_mod_bound(p + s * f, m);
    lemma_small_mod(((p + s * f) % m) as nat, m as nat);
    lemma_add_mod_noop_right((p + s * f) % m, f, m);
    lemma_add_mod_noop(p + s * f, f, m);
    assert(s * f + f == (s + 1) * f) by (nonlinear_arith);
}

} // verus!
