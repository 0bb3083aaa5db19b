//! The audio processor: per-block reconciliation and rendering.
//!
//! One [`ElysiumAudioProcessor`] owns a fixed pool of voices, the per-block
//! MIDI reducer state and the allocation clock.  Per callback it folds the
//! block's raw MIDI frames into deltas, reconciles the pool — offs, then
//! ons, then the latest bend — and pulls one frame per sounding voice per
//! output sample.  The returned block holds, for every sample, the sample
//! points of the sounding voices in pool order; the host sums their
//! waveform values, scales them by its headroom factor and writes the
//! result identically to every output channel.

use crate::midi::{reduce_messages, MidiState, MidiStateModel};
use crate::note::{max_bent_freq_millihz, note_freq_millihz, PITCH_BEND_CENTER};
use crate::phasor::MAX_SAMPLE_RATE_MILLIHZ;
use crate::pool::{
    after_bend_all, after_note_offs, after_note_ons, all_wf, apply_note_offs, apply_note_ons,
    apply_pitch_bend_to_sounding, lemma_note_offs_preserve_rates, voice_models,
};
use crate::voice::{SamplePoint, Voice, VoiceModel};
use vstd::prelude::*;

verus! {

/// Fixed polyphony: every pool holds this many voices.
pub const MAX_NUM_VOICES: usize = 16;

/// The sampling rate assumed until `prepare_to_play` is called, in
/// millihertz (41 kHz).
pub const DEFAULT_SAMPLE_RATE_MILLIHZ: u64 = 41000000;

/// The model of a just-created idle voice at a given sampling rate.
pub open spec fn idle_voice(sample_rate: int) -> VoiceModel {
    VoiceModel {
        phasor: crate::phasor::PhasorModel { sample_rate, freq: 0, phase: 0 },
        last_played_at: 0,
        playing: None,
        pitch_bend: PITCH_BEND_CENTER as int,
    }
}

/// Mathematical model of an [`ElysiumAudioProcessor`].
pub ghost struct ProcessorModel {
    pub sample_rate: int,
    pub midi: MidiStateModel,
    pub voices: Seq<VoiceModel>,
    pub clock: int,
    pub max_block_len: int,
}

impl ProcessorModel {
    /// The processor invariant: a bounded positive rate, a well-formed
    /// reducer, a full pool of well-formed voices all at the processor's
    /// rate, and a clock that postdates every fresh voice's stamp.
    pub open spec fn wf(self) -> bool {
        &&& 0 < self.sample_rate <= MAX_SAMPLE_RATE_MILLIHZ
        &&& self.midi.wf()
        &&& self.voices.len() == MAX_NUM_VOICES
        &&& all_wf(self.voices)
        &&& forall|i: int|
            0 <= i < self.voices.len() ==> (#[trigger] self.voices[i]).phasor.sample_rate
                == self.sample_rate
        &&& 1 <= self.clock <= u64::MAX
        &&& 0 <= self.max_block_len <= usize::MAX
    }

    /// A freshly prepared processor: everything silent at the given rate.
    pub open spec fn fresh(sample_rate: int, max_block_len: int) -> ProcessorModel {
        ProcessorModel {
            sample_rate,
            midi: MidiStateModel {
                notes_turned_on: Seq::empty(),
                notes_turned_off: Seq::empty(),
                pitch_bend: PITCH_BEND_CENTER as int,
            },
            voices: Seq::new(MAX_NUM_VOICES as nat, |i: int| idle_voice(sample_rate)),
            clock: 1,
            max_block_len,
        }
    }
}

/// The voices and clock after one block's reduced deltas, in reconciliation order:
/// every turned-off note stops its first sounding voice, every turned-on
/// note is assigned a voice, and the block's latest bend value reaches
/// every sounding voice.
pub open spec fn reconciled(
    voices: Seq<VoiceModel>,
    clock: int,
    deltas: MidiStateModel,
) -> (Seq<VoiceModel>, int) {
    let off_done = after_note_offs(voices, deltas.notes_turned_off);
    let on_done = after_note_ons(off_done, deltas.notes_turned_on, clock);
    (after_bend_all(on_done.0, deltas.pitch_bend), on_done.1)
}

/// The sample points one output sample receives: one per sounding voice,
/// in pool order, each pulled `s` steps past the reconciled state.
pub open spec fn frame_points(voices: Seq<VoiceModel>, s: nat) -> Seq<SamplePoint>
    decreases voices.len(),
{
    if voices.len() == 0 {
        Seq::empty()
    } else {
        let prefix = frame_points(voices.drop_last(), s);
        if voices.last().is_sounding() {
            prefix.push(voices.last().point_at(s))
        } else {
            prefix
        }
    }
}

/// Every sounding voice advanced `n` samples; idle voices untouched.
pub open spec fn all_advanced(voices: Seq<VoiceModel>, n: nat) -> Seq<VoiceModel> {
    Seq::new(voices.len(), |i: int| voices[i].advanced(n))
}

/// The deltas a block of raw frames reduces to, from a given reducer
/// state.
pub open spec fn block_deltas(midi: MidiStateModel, frames: Seq<Seq<u8>>) -> MidiStateModel {
    reduce_messages(midi.cleared(), frames)
}

/// Whether every note a block turns on keeps its whole bend range under
/// the sampling rate — the condition under which rendering the block
/// cannot drive any phasor past one cycle per sample.
pub open spec fn block_admissible_spec(
    midi: MidiStateModel,
    frames: Seq<Seq<u8>>,
    sample_rate: int,
) -> bool {
    forall|i: int|
        0 <= i < block_deltas(midi, frames).notes_turned_on.len() ==> max_bent_freq_millihz(
            (#[trigger] block_deltas(midi, frames).notes_turned_on[i]).0,
        ) <= sample_rate
}

/// The signal-generation core of the synthesizer: a fixed pool of voices,
/// the per-block MIDI reducer and the allocation clock, with scratch
/// capacity for one block.
pub struct ElysiumAudioProcessor {
    sample_rate: u64,
    midi_state: MidiState,
    voices: Vec<Voice>,
    clock: u64,
    max_block_len: usize,
}

impl View for ElysiumAudioProcessor {
    type V = ProcessorModel;

    closed spec fn view(&self) -> ProcessorModel {
        ProcessorModel {
            sample_rate: self.sample_rate as int,
            midi: self.midi_state@,
            voices: voice_models(self.voices@),
            clock: self.clock as int,
            max_block_len: self.max_block_len as int,
        }
    }
}

/// A full pool of fresh idle voices at the given rate.
fn fresh_voices(sample_rate: u64) -> (r: Vec<Voice>)
    requires
        0 < sample_rate <= MAX_SAMPLE_RATE_MILLIHZ,
    ensures
        voice_models(r@) == Seq::new(MAX_NUM_VOICES as nat, |i: int| idle_voice(
            sample_rate as int,
        )),
{
    let mut voices: Vec<Voice> = Vec::new();
    let mut i: usize = 0;
    while i < MAX_NUM_VOICES
        invariant
            i <= MAX_NUM_VOICES,
            voices@.len() == i,
            0 < sample_rate <= MAX_SAMPLE_RATE_MILLIHZ,
            forall|w: int| 0 <= w < i ==> (#[trigger] voice_models(voices@)[w]) == idle_voice(
                sample_rate as int,
            ),
        decreases MAX_NUM_VOICES - i,
    {
        let ghost before = voices@;
        voices.push(Voice::new(sample_rate));
        proof {
            assert(voices@[i as int]@ == idle_voice(sample_rate as int));
            assert forall|w: int| 0 <= w < i + 1 implies (#[trigger] voice_models(voices@)[w])
                == idle_voice(sample_rate as int) by {
                if w < i {
                    assert(voices@[w] == before[w]);
                    assert(voice_models(before)[w] == before[w]@);
                }
                assert(voice_models(voices@)[w] == voices@[w]@);
            }
        }
        i = i + 1;
    }
    assert(voice_models(voices@) =~= Seq::new(MAX_NUM_VOICES as nat, |i: int| idle_voice(
        sample_rate as int,
    )));
    voices
}

impl Default for ElysiumAudioProcessor {
    /// A processor at the default rate, with no scratch capacity yet:
    /// `prepare_to_play` must still be called before rendering anything
    /// longer than an empty block.
    fn default() -> (r: Self)
        ensures
            r.wf(),
            r@ == ProcessorModel::fresh(DEFAULT_SAMPLE_RATE_MILLIHZ as int, 0),
    {
        ElysiumAudioProcessor {
            sample_rate: DEFAULT_SAMPLE_RATE_MILLIHZ,
            midi_state: MidiState::new(),
            voices: fresh_voices(DEFAULT_SAMPLE_RATE_MILLIHZ),
            clock: 1,
            max_block_len: 0,
        }
    }
}

impl ElysiumAudioProcessor {
    pub open spec fn wf(self) -> bool {
        self@.wf()
    }

    /// The current sampling rate, in millihertz.
    pub fn sample_rate_millihz(&self) -> (r: u64)
        ensures
            r == self@.sample_rate,
    {
        self.sample_rate
    }

    /// The prepared per-block scratch capacity, in samples.  `process_block`
    /// only accepts blocks of exactly this length.
    pub fn max_block_len(&self) -> (r: usize)
        ensures
            r == self@.max_block_len,
    {
        self.max_block_len
    }

    /// Control-context (re)configuration: adopts the sampling rate, resets
    /// every voice to idle at that rate, clears the reducer and the clock,
    /// and sizes the scratch capacity to the expected block length.
    ///
    /// Must be called before the first render and after every sampling-rate
    /// change.
    pub fn prepare_to_play(&mut self, sample_rate: u64, maximum_expected_samples_per_block: i32)
        requires
            0 < sample_rate <= MAX_SAMPLE_RATE_MILLIHZ,
        ensures
            final(self).wf(),
            final(self)@ == ProcessorModel::fresh(
                sample_rate as int,
                if maximum_expected_samples_per_block >= 0 {
                    maximum_expected_samples_per_block as int
                } else {
                    0
                },
            ),
    {
        self.sample_rate = sample_rate;
        self.midi_state = MidiState::new();
        self.voices = fresh_voices(sample_rate);
        self.clock = 1;
        self.max_block_len = if maximum_expected_samples_per_block >= 0 {
            maximum_expected_samples_per_block as usize
        } else {
            0
        };
    }

    /// Whether a block's frames can be rendered at the current rate: every
    /// note the block turns on must keep its whole bend range under the
    /// sampling rate.  `process_block` requires exactly this condition; a
    /// host must treat a rejected block as a fatal configuration violation.
    #[verifier::loop_isolation(false)]
    pub fn block_admissible(&self, midi_frames: &Vec<Vec<u8>>) -> (r: bool)
        requires
            self.wf(),
        ensures
            r == block_admissible_spec(self@.midi, midi_frames.deep_view(), self@.sample_rate),
    {
        let mut scratch = MidiState::new();
        scratch.process_midi_messages(midi_frames);
        proof {
            crate::midi::lemma_reduce_deltas_ignore_bend(
                MidiStateModel {
                    notes_turned_on: Seq::empty(),
                    notes_turned_off: Seq::empty(),
                    pitch_bend: PITCH_BEND_CENTER as int,
                },
                self@.midi.cleared(),
                midi_frames.deep_view(),
            );
        }
        let ons = scratch.notes_turned_on();
        let ghost reduced_ons = block_deltas(self@.midi, midi_frames.deep_view()).notes_turned_on;
        assert(ons@ == reduced_ons);
        let mut i: usize = 0;
        while i < ons.len()
            invariant
                i <= ons.len(),
                ons@ == reduced_ons,
                scratch.wf(),
                forall|w: int|
                    0 <= w < i ==> max_bent_freq_millihz((#[trigger] reduced_ons[w]).0)
                        <= self@.sample_rate,
            decreases ons.len() - i,
        {
            assert(ons@[i as int] == scratch@.notes_turned_on[i as int]);
            let key = ons[i].0;
            let target = if key <= 125 {
                note_freq_millihz(key + 2)
            } else {
                note_freq_millihz(key)
            };
            let base = note_freq_millihz(key);
            let bound = if target >= base {
                target
            } else {
                base
            };
            assert(bound as int == max_bent_freq_millihz(key));
            if bound > self.sample_rate {
                return false;
            }
            i = i + 1;
        }
        true
    }

    /// The per-block reconciliation: folds the block's frames into
    /// deltas, stops every turned-off note's first sounding voice, assigns
    /// every turned-on note, and pushes the latest bend value to every
    /// sounding voice.
    fn process_midi_messages(&mut self, midi_frames: &Vec<Vec<u8>>)
        requires
            old(self).wf(),
            block_admissible_spec(
                old(self)@.midi,
                midi_frames.deep_view(),
                old(self)@.sample_rate,
            ),
        ensures
            final(self).wf(),
            final(self)@.sample_rate == old(self)@.sample_rate,
            final(self)@.max_block_len == old(self)@.max_block_len,
            final(self)@.midi == block_deltas(old(self)@.midi, midi_frames.deep_view()),
            final(self)@.voices == reconciled(
                old(self)@.voices,
                old(self)@.clock,
                final(self)@.midi,
            ).0,
            final(self)@.clock == reconciled(
                old(self)@.voices,
                old(self)@.clock,
                final(self)@.midi,
            ).1,
    {
        let ghost pre = self@;
        self.midi_state.process_midi_messages(midi_frames);
        let ghost deltas = self@.midi;
        assert(deltas == block_deltas(pre.midi, midi_frames.deep_view()));
        apply_note_offs(&mut self.voices, self.midi_state.notes_turned_off());
        proof {
            lemma_note_offs_preserve_rates(pre.voices, deltas.notes_turned_off);
        }
        let new_clock = apply_note_ons(
            &mut self.voices,
            self.midi_state.notes_turned_on(),
            self.clock,
        );
        self.clock = new_clock;
        let ghost on_done = voice_models(self.voices@);
        apply_pitch_bend_to_sounding(&mut self.voices, self.midi_state.pitch_bend());
        proof {
            lemma_reconciled_clock_bounds(pre.voices, deltas, pre.clock);
            assert forall|i: int| 0 <= i < voice_models(self.voices@).len() implies (
            #[trigger] voice_models(self.voices@)[i]).phasor.sample_rate == pre.sample_rate by {
                assert(voice_models(self.voices@)[i] == if on_done[i].is_sounding() {
                    on_done[i].bent(deltas.pitch_bend)
                } else {
                    on_done[i]
                });
            }
        }
    }

    /// One audio callback: reconciles the pool with the block's MIDI
    /// frames, then pulls `num_samples` frames from every sounding voice in
    /// strict per-sample sequence.  Entry `s` of the result carries the
    /// sounding voices' sample points for output sample `s`, in pool order.
    ///
    /// The block length must equal the prepared scratch capacity, and the
    /// block must be admissible at the current rate; a host must treat a
    /// violation of either as fatal before any sample is written.
    pub fn process_block(&mut self, midi_frames: &Vec<Vec<u8>>, num_samples: usize) -> (out: Vec<
        Vec<SamplePoint>,
    >)
        requires
            old(self).wf(),
            num_samples == old(self)@.max_block_len,
            block_admissible_spec(
                old(self)@.midi,
                midi_frames.deep_view(),
                old(self)@.sample_rate,
            ),
        ensures
            final(self).wf(),
            final(self)@.sample_rate == old(self)@.sample_rate,
            final(self)@.max_block_len == old(self)@.max_block_len,
            final(self)@.midi == block_deltas(old(self)@.midi, midi_frames.deep_view()),
            final(self)@.clock == reconciled(
                old(self)@.voices,
                old(self)@.clock,
                final(self)@.midi,
            ).1,
            final(self)@.voices == all_advanced(
                reconciled(old(self)@.voices, old(self)@.clock, final(self)@.midi).0,
                num_samples as nat,
            ),
            out@.len() == num_samples,
            forall|s: int|
                0 <= s < num_samples ==> (#[trigger] out@[s])@ == frame_points(
                    reconciled(old(self)@.voices, old(self)@.clock, final(self)@.midi).0,
                    s as nat,
                ),
    {
        let ghost pre = self@;
        self.process_midi_messages(midi_frames);
        let ghost deltas = self@.midi;
        let ghost rec = reconciled(pre.voices, pre.clock, deltas).0;
        assert(voice_models(self.voices@) == rec);
        self.render_frames(num_samples)
    }

    /// Pulls `num_samples` frames from every sounding voice, voice by
    /// voice, sample by sample, accumulating each sample's points in pool
    /// order.
    #[verifier::loop_isolation(false)]
    #[verifier::rlimit(100)]
    fn render_frames(&mut self, num_samples: usize) -> (out: Vec<Vec<SamplePoint>>)
        requires
            old(self).wf(),
        ensures
            final(self).wf(),
            final(self)@.sample_rate == old(self)@.sample_rate,
            final(self)@.max_block_len == old(self)@.max_block_len,
            final(self)@.midi == old(self)@.midi,
            final(self)@.clock == old(self)@.clock,
            final(self)@.voices == all_advanced(old(self)@.voices, num_samples as nat),
            out@.len() == num_samples,
            forall|s: int|
                0 <= s < num_samples ==> (#[trigger] out@[s])@ == frame_points(
                    old(self)@.voices,
                    s as nat,
                ),
    {
        let ghost rec = old(self)@.voices;
        let mut out: Vec<Vec<SamplePoint>> = Vec::new();
        let mut s: usize = 0;
        while s < num_samples
            invariant
                s <= num_samples,
                out@.len() == s,
                self == old(self),
                forall|t: int| 0 <= t < s ==> (#[trigger] out@[t])@ == Seq::<SamplePoint>::empty(),
            decreases num_samples - s,
        {
            let row: Vec<SamplePoint> = Vec::new();
            out.push(row);
            s = s + 1;
        }
        assert(rec.take(0) =~= Seq::<VoiceModel>::empty());
        let mut v: usize = 0;
        while v < self.voices.len()
            invariant
                v <= self.voices.len(),
                self.voices@.len() == rec.len(),
                self.sample_rate == old(self).sample_rate,
                self.midi_state == old(self).midi_state,
                self.clock == old(self).clock,
                self.max_block_len == old(self).max_block_len,
                all_wf(voice_models(self.voices@)),
                forall|w: int|
                    0 <= w < v ==> (#[trigger] voice_models(self.voices@)[w]) == rec[w].advanced(
                        num_samples as nat,
                    ),
                forall|w: int|
                    v <= w < rec.len() ==> (#[trigger] voice_models(self.voices@)[w]) == rec[w],
                out@.len() == num_samples,
                forall|t: int|
                    0 <= t < num_samples ==> (#[trigger] out@[t])@ == frame_points(
                        rec.take(v as int),
                        t as nat,
                    ),
            decreases self.voices.len() - v,
        {
            let ghost mid = voice_models(self.voices@);
            assert(mid[v as int] == self.voices@[v as int]@);
            assert(rec.take(v + 1).drop_last() =~= rec.take(v as int));
            assert(rec.take(v + 1).last() == rec[v as int]);
            if self.voices[v].is_producing_samples() {
                proof {
                    assert(rec[v as int].wf());
                    crate::voice::lemma_advanced_step(rec[v as int], 0);
                }
                let mut t: usize = 0;
                while t < num_samples
                    invariant
                        t <= num_samples,
                        self.voices@.len() == rec.len(),
                        self.sample_rate == old(self).sample_rate,
                        self.midi_state == old(self).midi_state,
                        self.clock == old(self).clock,
                        self.max_block_len == old(self).max_block_len,
                        v < rec.len(),
                        rec[v as int].is_sounding(),
                        rec[v as int].wf(),
                        forall|w: int|
                            0 <= w < rec.len() && w != v ==> (#[trigger] voice_models(
                                self.voices@,
                            )[w]) == mid[w],
                        voice_models(self.voices@)[v as int] == rec[v as int].advanced(t as nat),
                        all_wf(voice_models(self.voices@)),
                        out@.len() == num_samples,
                        forall|u: int|
                            0 <= u < t ==> (#[trigger] out@[u])@ == frame_points(
                                rec.take(v as int),
                                u as nat,
                            ).push(rec[v as int].point_at(u as nat)),
                        forall|u: int|
                            t <= u < num_samples ==> (#[trigger] out@[u])@ == frame_points(
                                rec.take(v as int),
                                u as nat,
                            ),
                    decreases num_samples - t,
                {
                    let ghost cur = voice_models(self.voices@);
                    proof {
                        crate::voice::lemma_advanced_step(rec[v as int], t as nat);
                    }
                    let vr = &mut self.voices[v];
                    let fr = vr.next_frame();
                    assert(self.voices@[v as int]@ == rec[v as int].advanced((t + 1) as nat));
                    assert(voice_models(self.voices@) =~= cur.update(
                        v as int,
                        rec[v as int].advanced((t + 1) as nat),
                    ));
                    assert(fr.sample == Some(rec[v as int].point_at(t as nat)));
                    let point = fr.sample.unwrap();
                    let row = &mut out[t];
                    row.push(point);
                    t = t + 1;
                }
                proof {
                    crate::voice::lemma_advanced_step(rec[v as int], num_samples as nat);
                    assert forall|u: int| 0 <= u < num_samples implies (#[trigger] out@[u])@
                        == frame_points(rec.take(v + 1), u as nat) by {
                        assert(out@[u]@ == frame_points(rec.take(v as int), u as nat).push(
                            rec[v as int].point_at(u as nat),
                        ));
                    }
                }
            } else {
                proof {
                    assert(rec[v as int].advanced(num_samples as nat) == rec[v as int]);
                    assert forall|u: int| 0 <= u < num_samples implies (#[trigger] out@[u])@
                        == frame_points(rec.take(v + 1), u as nat) by {
                        assert(frame_points(rec.take(v + 1), u as nat) == frame_points(
                            rec.take(v as int),
                            u as nat,
                        ));
                    }
                }
            }
            v = v + 1;
        }
        assert(rec.take(rec.len() as int) =~= rec);
        assert(voice_models(self.voices@) =~= all_advanced(rec, num_samples as nat));
        out
    }
}

/// The clock a reconciliation returns stays within the clock's range.
proof fn lemma_reconciled_clock_bounds(
    voices: Seq<VoiceModel>,
    deltas: MidiStateModel,
    clock: int,
)
    requires
        1 <= clock <= u64::MAX,
    ensures
        1 <= reconciled(voices, clock, deltas).1 <= u64::MAX,
{
    lemma_after_note_ons_clock_bounds(
        after_note_offs(voices, deltas.notes_turned_off),
        deltas.notes_turned_on,
        clock,
    );
}

/// The saturating clock never leaves `[1, u64::MAX]`.
proof fn lemma_after_note_ons_clock_bounds(
    voices: Seq<VoiceModel>,
    ons: Seq<(u8, u8)>,
    clock: int,
)
    requires
        1 <= clock <= u64::MAX,
    ensures
        1 <= after_note_ons(voices, ons, clock).1 <= u64::MAX,
    decreases ons.len(),
{
    if ons.len() > 0 {
        lemma_after_note_ons_clock_bounds(voices, ons.drop_last(), clock);
    }
}

} // verus!
