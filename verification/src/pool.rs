//! The voice pool allocator.
//!
//! A pool is a fixed-size ordered collection of voices, reconciled once per
//! block with the reducer's deltas: every turned-off note stops the first
//! voice sounding it; every turned-on note is assigned to the first idle
//! voice, or — when none is idle — steals the least recently triggered
//! voice, ties broken by pool order; finally every sounding voice receives
//! the block's latest pitch-bend value.

use crate::note::{max_bent_freq_millihz, MidiNote, PITCH_BEND_MAX};
use crate::voice::{Voice, VoiceModel};
use vstd::prelude::*;

verus! {

/// The models of a pool's voices, in pool order.
pub open spec fn voice_models(voices: Seq<Voice>) -> Seq<VoiceModel> {
    voices.map_values(|v: Voice| v@)
}

/// Every voice of the pool is well-formed.
pub open spec fn all_wf(voices: Seq<VoiceModel>) -> bool {
    forall|i: int| 0 <= i < voices.len() ==> (#[trigger] voices[i]).wf()
}

/// Whether a voice is currently sounding exactly `note`.
pub open spec fn sounds_note(v: VoiceModel, note: u8) -> bool {
    v.is_sounding() && v.playing.unwrap().note == note
}

/// The note a turned-on pair is assigned as: the reducer drops the wire
/// channel, so pool notes carry channel 1.
pub open spec fn on_note(p: (u8, u8)) -> MidiNote {
    MidiNote { channel: 1, note: p.0, velocity: p.1 }
}

/// Index of the first idle voice, or the pool size if every voice sounds.
pub open spec fn first_idle_index(voices: Seq<VoiceModel>) -> int
    decreases voices.len(),
{
    if voices.len() == 0 {
        0
    } else if !voices[0].is_sounding() {
        0
    } else {
        1 + first_idle_index(voices.drop_first())
    }
}

/// Index of the first voice sounding `note`, or the pool size.
pub open spec fn first_sounding_index(voices: Seq<VoiceModel>, note: u8) -> int
    decreases voices.len(),
{
    if voices.len() == 0 {
        0
    } else if sounds_note(voices[0], note) {
        0
    } else {
        1 + first_sounding_index(voices.drop_first(), note)
    }
}

/// The earliest recency stamp in a nonempty pool.
pub open spec fn min_last_played(voices: Seq<VoiceModel>) -> int
    decreases voices.len(),
{
    if voices.len() <= 1 {
        voices[0].last_played_at
    } else {
        let m = min_last_played(voices.drop_last());
        if voices.last().last_played_at < m {
            voices.last().last_played_at
        } else {
            m
        }
    }
}

/// Index of the first voice with the given recency stamp, or the pool size.
pub open spec fn first_index_with_stamp(voices: Seq<VoiceModel>, stamp: int) -> int
    decreases voices.len(),
{
    if voices.len() == 0 {
        0
    } else if voices[0].last_played_at == stamp {
        0
    } else {
        1 + first_index_with_stamp(voices.drop_first(), stamp)
    }
}

/// The index stolen when no voice is idle: the first voice whose stamp is
/// the pool minimum — strictly least-recently-triggered, ties broken by
/// pool order.
pub open spec fn steal_index(voices: Seq<VoiceModel>) -> int {
    first_index_with_stamp(voices, min_last_played(voices))
}

/// Where a note-on lands: the first idle voice, or the stolen one.
pub open spec fn assign_index(voices: Seq<VoiceModel>) -> int {
    if first_idle_index(voices) < voices.len() {
        first_idle_index(voices)
    } else {
        steal_index(voices)
    }
}

/// The pool after one note-on assignment at instant `clock`.
pub open spec fn assigned(
    voices: Seq<VoiceModel>,
    note: u8,
    velocity: u8,
    clock: int,
) -> Seq<VoiceModel> {
    voices.update(
        assign_index(voices),
        voices[assign_index(voices)].started(on_note((note, velocity)), clock),
    )
}

/// A saturating advance of the allocation clock.
pub open spec fn bumped_clock(clock: int) -> int {
    if clock < u64::MAX {
        clock + 1
    } else {
        clock
    }
}

/// The pool and clock after a block's note-ons, applied in trigger order.
pub open spec fn after_note_ons(
    voices: Seq<VoiceModel>,
    ons: Seq<(u8, u8)>,
    clock: int,
) -> (Seq<VoiceModel>, int)
    decreases ons.len(),
{
    if ons.len() == 0 {
        (voices, clock)
    } else {
        let (vs, c) = after_note_ons(voices, ons.drop_last(), clock);
        (assigned(vs, ons.last().0, ons.last().1, c), bumped_clock(c))
    }
}

/// The pool after one note-off: the first voice sounding the note is
/// stopped; a note-off for a note no voice sounds changes nothing.
pub open spec fn after_note_off(voices: Seq<VoiceModel>, note: u8) -> Seq<VoiceModel> {
    let i = first_sounding_index(voices, note);
    if i < voices.len() {
        voices.update(i, voices[i].stopped())
    } else {
        voices
    }
}

/// The pool after a block's note-offs, in order.
pub open spec fn after_note_offs(voices: Seq<VoiceModel>, offs: Seq<u8>) -> Seq<VoiceModel>
    decreases offs.len(),
{
    if offs.len() == 0 {
        voices
    } else {
        after_note_off(after_note_offs(voices, offs.drop_last()), offs.last())
    }
}

/// The pool after the block's bend value reaches every sounding voice.
pub open spec fn after_bend_all(voices: Seq<VoiceModel>, bend: int) -> Seq<VoiceModel> {
    Seq::new(
        voices.len(),
        |i: int|
            if voices[i].is_sounding() {
                voices[i].bent(bend)
            } else {
                voices[i]
            },
    )
}

/// What `first_idle_index` finds: nothing idle before it, an idle voice at
/// it while in range.
pub proof fn lemma_first_idle_index(voices: Seq<VoiceModel>)
    ensures
        0 <= first_idle_index(voices) <= voices.len(),
        first_idle_index(voices) < voices.len() ==> !voices[first_idle_index(
            voices,
        )].is_sounding(),
        forall|j: int|
            0 <= j < first_idle_index(voices) ==> (#[trigger] voices[j]).is_sounding(),
    decreases voices.len(),
{
    if voices.len() > 0 && voices[0].is_sounding() {
        lemma_first_idle_index(voices.drop_first());
        assert forall|j: int| 0 <= j < first_idle_index(voices) implies (#[trigger] voices[j])
            .is_sounding() by {
            if j > 0 {
                assert(voices.drop_first()[j - 1] == voices[j]);
            }
        }
    }
}

/// What `first_sounding_index` finds.
pub proof fn lemma_first_sounding_index(voices: Seq<VoiceModel>, note: u8)
    ensures
        0 <= first_sounding_index(voices, note) <= voices.len(),
        first_sounding_index(voices, note) < voices.len() ==> sounds_note(
            voices[first_sounding_index(voices, note)],
            note,
        ),
        forall|j: int|
            0 <= j < first_sounding_index(voices, note) ==> !sounds_note(
                #[trigger] voices[j],
                note,
            ),
    decreases voices.len(),
{
    if voices.len() > 0 && !sounds_note(voices[0], note) {
        lemma_first_sounding_index(voices.drop_first(), note);
        assert forall|j: int| 0 <= j < first_sounding_index(voices, note) implies !sounds_note(
            #[trigger] voices[j],
            note,
        ) by {
            if j > 0 {
                assert(voices.drop_first()[j - 1] == voices[j]);
            }
        }
    }
}

/// The pool minimum is a lower bound on every stamp, and some voice
/// attains it.
pub proof fn lemma_min_last_played(voices: Seq<VoiceModel>)
    requires
        voices.len() > 0,
    ensures
        forall|j: int|
            0 <= j < voices.len() ==> min_last_played(voices) <= (#[trigger] voices[j])
                .last_played_at,
        exists|j: int|
            0 <= j < voices.len() && (#[trigger] voices[j]).last_played_at == min_last_played(
                voices,
            ),
    decreases voices.len(),
{
    if voices.len() > 1 {
        lemma_min_last_played(voices.drop_last());
        let w = choose|w: int|
            0 <= w < voices.drop_last().len() && (#[trigger] voices.drop_last()[w]).last_played_at
                == min_last_played(voices.drop_last());
        assert(voices[w] == voices.drop_last()[w]);
        assert forall|j: int| 0 <= j < voices.len() implies min_last_played(voices) <= (
        #[trigger] voices[j]).last_played_at by {
            if j < voices.len() - 1 {
                assert(voices.drop_last()[j] == voices[j]);
            }
        }
        if voices.last().last_played_at < min_last_played(voices.drop_last()) {
            assert(voices[voices.len() - 1].last_played_at == min_last_played(voices));
        } else {
            assert(voices[w].last_played_at == min_last_played(voices));
        }
    } else {
        assert(voices[0].last_played_at == min_last_played(voices));
    }
}

/// What `first_index_with_stamp` finds, when some voice carries the stamp.
pub proof fn lemma_first_index_with_stamp(voices: Seq<VoiceModel>, stamp: int)
    requires
        exists|j: int| 0 <= j < voices.len() && (#[trigger] voices[j]).last_played_at == stamp,
    ensures
        0 <= first_index_with_stamp(voices, stamp) < voices.len(),
        voices[first_index_with_stamp(voices, stamp)].last_played_at == stamp,
        forall|j: int|
            0 <= j < first_index_with_stamp(voices, stamp) ==> (#[trigger] voices[j])
                .last_played_at != stamp,
    decreases voices.len(),
{
    let w = choose|w: int|
        0 <= w < voices.len() && (#[trigger] voices[w]).last_played_at == stamp;
    if voices.len() > 0 && voices[0].last_played_at != stamp {
        assert(voices.drop_first()[w - 1] == voices[w]);
        lemma_first_index_with_stamp(voices.drop_first(), stamp);
        assert(voices[first_index_with_stamp(voices, stamp)] == voices.drop_first()[
            first_index_with_stamp(voices.drop_first(), stamp)]);
        assert forall|j: int| 0 <= j < first_index_with_stamp(voices, stamp) implies (
        #[trigger] voices[j]).last_played_at != stamp by {
            if j > 0 {
                assert(voices.drop_first()[j - 1] == voices[j]);
            }
        }
    }
}

/// Stops the first voice sounding `note`, as the off pass does for one
/// turned-off note; a note-off for a note no voice sounds changes nothing.
#[verifier::loop_isolation(false)]
pub fn stop_first_matching(voices: &mut Vec<Voice>, note: u8)
    requires
        all_wf(voice_models(old(voices)@)),
    ensures
        all_wf(voice_models(final(voices)@)),
        voice_models(final(voices)@) == after_note_off(voice_models(old(voices)@), note),
        final(voices)@.len() == old(voices)@.len(),
{
    let ghost pre = voice_models(old(voices)@);
    proof {
        lemma_first_sounding_index(pre, note);
    }
    let mut j: usize = 0;
    while j < voices.len()
        invariant
            j <= voices.len(),
            voices@ == old(voices)@,
            forall|w: int| 0 <= w < j ==> !sounds_note(#[trigger] pre[w], note),
        decreases voices.len() - j,
    {
        assert(pre[j as int] == voices@[j as int]@);
        let playing = voices[j].currently_playing();
        if let Some(n) = playing {
            if n.note == note {
                assert(sounds_note(pre[j as int], note));
                assert(first_sounding_index(pre, note) == j);
                let v = &mut voices[j];
                v.stop_playing();
                assert(voice_models(voices@) =~= after_note_off(pre, note));
                return;
            }
        }
        j = j + 1;
    }
    assert(first_sounding_index(pre, note) == pre.len());
}

/// Starts `note` at instant `now` on the first idle voice, or — when none
/// is idle — steals the voice with the globally minimum recency stamp,
/// ties broken by pool order.  Some voice is always found: the pool is
/// nonempty.
#[verifier::loop_isolation(false)]
#[verifier::rlimit(100)]
fn assign_note_on(voices: &mut Vec<Voice>, note: u8, velocity: u8, now: u64)
    requires
        old(voices)@.len() > 0,
        all_wf(voice_models(old(voices)@)),
        note <= 127,
        velocity <= 127,
        forall|v: int|
            0 <= v < old(voices)@.len() ==> max_bent_freq_millihz(note) <= (
            #[trigger] voice_models(old(voices)@)[v]).phasor.sample_rate,
    ensures
        all_wf(voice_models(final(voices)@)),
        voice_models(final(voices)@) == assigned(
            voice_models(old(voices)@),
            note,
            velocity,
            now as int,
        ),
        final(voices)@.len() == old(voices)@.len(),
{
    let ghost pre = voice_models(old(voices)@);
    proof {
        lemma_first_idle_index(pre);
    }
    let assigned_note = MidiNote { channel: 1, note, velocity };
    let mut least: u64 = u64::MAX;
    let mut j: usize = 0;
    while j < voices.len()
        invariant
            j <= voices.len(),
            voices@ == old(voices)@,
            forall|w: int| 0 <= w < j ==> (#[trigger] pre[w]).is_sounding(),
            j > 0 ==> least as int == min_last_played(pre.take(j as int)),
            j == 0 ==> least == u64::MAX,
        decreases voices.len() - j,
    {
        assert(pre[j as int] == voices@[j as int]@);
        if !voices[j].is_producing_samples() {
            assert(first_idle_index(pre) == j);
            let v = &mut voices[j];
            v.start_playing(assigned_note, now);
            assert(voice_models(voices@) =~= assigned(pre, note, velocity, now as int));
            return;
        }
        proof {
            assert(pre.take(j + 1).drop_last() =~= pre.take(j as int));
            assert(pre.take(j + 1).last() == pre[j as int]);
            if j > 0 {
                lemma_min_last_played(pre.take(j as int));
            }
        }
        let stamp = voices[j].last_played_at();
        if stamp < least {
            least = stamp;
        }
        j = j + 1;
    }
    assert(first_idle_index(pre) == pre.len());
    assert(pre.take(voices.len() as int) =~= pre);
    proof {
        lemma_min_last_played(pre);
        lemma_first_index_with_stamp(pre, min_last_played(pre));
    }
    let mut j2: usize = 0;
    while j2 < voices.len()
        invariant
            j2 <= voices.len(),
            voices@ == old(voices)@,
            forall|w: int| 0 <= w < j2 ==> (#[trigger] pre[w]).last_played_at != least as int,
        decreases voices.len() - j2,
    {
        assert(pre[j2 as int] == voices@[j2 as int]@);
        if voices[j2].last_played_at() == least {
            assert(steal_index(pre) == j2);
            assert(assign_index(pre) == j2);
            let v = &mut voices[j2];
            v.start_playing(assigned_note, now);
            assert(voice_models(voices@) =~= assigned(pre, note, velocity, now as int));
            return;
        }
        j2 = j2 + 1;
    }
    assert(false);
}

/// The reconciliation's off pass: for every turned-off note, in order, the first voice
/// sounding it is stopped.
#[verifier::loop_isolation(false)]
pub fn apply_note_offs(voices: &mut Vec<Voice>, offs: &Vec<u8>)
    requires
        all_wf(voice_models(old(voices)@)),
    ensures
        all_wf(voice_models(final(voices)@)),
        voice_models(final(voices)@) == after_note_offs(voice_models(old(voices)@), offs@),
        final(voices)@.len() == old(voices)@.len(),
{
    let ghost pre = voice_models(old(voices)@);
    let mut i: usize = 0;
    while i < offs.len()
        invariant
            i <= offs.len(),
            voices@.len() == old(voices)@.len(),
            all_wf(voice_models(voices@)),
            voice_models(voices@) == after_note_offs(pre, offs@.take(i as int)),
        decreases offs.len() - i,
    {
        assert(offs@.take(i + 1).drop_last() =~= offs@.take(i as int));
        assert(offs@.take(i + 1).last() == offs@[i as int]);
        stop_first_matching(voices, offs[i]);
        i = i + 1;
    }
    assert(offs@.take(offs.len() as int) =~= offs@);
}

/// The reconciliation's on pass: every turned-on note, in trigger order, is assigned a
/// voice; the clock advances one instant per assignment and is returned.
#[verifier::loop_isolation(false)]
#[verifier::rlimit(100)]
pub fn apply_note_ons(voices: &mut Vec<Voice>, ons: &Vec<(u8, u8)>, clock: u64) -> (new_clock:
    u64)
    requires
        old(voices)@.len() > 0,
        all_wf(voice_models(old(voices)@)),
        forall|i: int| 0 <= i < ons@.len() ==> (#[trigger] ons@[i]).0 <= 127 && ons@[i].1 <= 127,
        forall|i: int, v: int|
            0 <= i < ons@.len() && 0 <= v < old(voices)@.len() ==> max_bent_freq_millihz(
                (#[trigger] ons@[i]).0,
            ) <= (#[trigger] voice_models(old(voices)@)[v]).phasor.sample_rate,
    ensures
        all_wf(voice_models(final(voices)@)),
        voice_models(final(voices)@) == after_note_ons(
            voice_models(old(voices)@),
            ons@,
            clock as int,
        ).0,
        new_clock as int == after_note_ons(voice_models(old(voices)@), ons@, clock as int).1,
        final(voices)@.len() == old(voices)@.len(),
        forall|v: int|
            0 <= v < old(voices)@.len() ==> (#[trigger] voice_models(final(voices)@)[v])
                .phasor.sample_rate == voice_models(old(voices)@)[v].phasor.sample_rate,
{
    let ghost pre = voice_models(old(voices)@);
    let mut c: u64 = clock;
    let mut i: usize = 0;
    while i < ons.len()
        invariant
            i <= ons.len(),
            voices@.len() == old(voices)@.len(),
            all_wf(voice_models(voices@)),
            voice_models(voices@) == after_note_ons(pre, ons@.take(i as int), clock as int).0,
            c as int == after_note_ons(pre, ons@.take(i as int), clock as int).1,
            forall|v: int|
                0 <= v < voices@.len() ==> (#[trigger] voice_models(voices@)[v]).phasor.sample_rate
                    == pre[v].phasor.sample_rate,
        decreases ons.len() - i,
    {
        assert(ons@.take(i + 1).drop_last() =~= ons@.take(i as int));
        assert(ons@.take(i + 1).last() == ons@[i as int]);
        let ghost mid = voice_models(voices@);
        let on = ons[i];
        assign_note_on(voices, on.0, on.1, c);
        proof {
            lemma_first_idle_index(mid);
            if first_idle_index(mid) == mid.len() {
                lemma_min_last_played(mid);
                lemma_first_index_with_stamp(mid, min_last_played(mid));
            }
            assert(0 <= assign_index(mid) < mid.len());
            assert forall|v: int|
                0 <= v < voices@.len() implies (#[trigger] voice_models(voices@)[v])
                .phasor.sample_rate == pre[v].phasor.sample_rate by {
                if v != assign_index(mid) {
                    assert(voice_models(voices@)[v] == mid[v]);
                } else {
                    assert(voice_models(voices@)[v] == mid[v].started(
                        on_note((on.0, on.1)),
                        c as int,
                    ));
                }
            }
        }
        c = if c < u64::MAX {
            c + 1
        } else {
            c
        };
        i = i + 1;
    }
    assert(ons@.take(ons.len() as int) =~= ons@);
    c
}

/// The reconciliation's final pass: every voice currently sounding receives the block's
/// latest pitch-bend value.
#[verifier::loop_isolation(false)]
pub fn apply_pitch_bend_to_sounding(voices: &mut Vec<Voice>, bend: u16)
    requires
        all_wf(voice_models(old(voices)@)),
        bend <= PITCH_BEND_MAX,
    ensures
        all_wf(voice_models(final(voices)@)),
        voice_models(final(voices)@) == after_bend_all(voice_models(old(voices)@), bend as int),
        final(voices)@.len() == old(voices)@.len(),
{
    let ghost pre = voice_models(old(voices)@);
    let mut j: usize = 0;
    while j < voices.len()
        invariant
            j <= voices.len(),
            voices@.len() == old(voices)@.len(),
            all_wf(voice_models(voices@)),
            forall|w: int|
                0 <= w < j ==> (#[trigger] voice_models(voices@)[w]) == (if pre[w].is_sounding() {
                    pre[w].bent(bend as int)
                } else {
                    pre[w]
                }),
            forall|w: int|
                j <= w < voices@.len() ==> (#[trigger] voice_models(voices@)[w]) == pre[w],
        decreases voices.len() - j,
    {
        let ghost cur = voice_models(voices@);
        assert(cur[j as int] == voices@[j as int]@);
        if voices[j].is_producing_samples() {
            let v = &mut voices[j];
            v.set_pitch_bend(bend);
            assert(voices@[j as int]@ == cur[j as int].bent(bend as int));
            assert(voice_models(voices@) =~= cur.update(j as int, cur[j as int].bent(
                bend as int,
            )));
        }
        j = j + 1;
    }
    assert(voice_models(voices@) =~= after_bend_all(pre, bend as int));
}


/// The off pass touches no voice's phasor rates: it only clears notes.
pub proof fn lemma_note_offs_preserve_rates(voices: Seq<VoiceModel>, offs: Seq<u8>)
    ensures
        after_note_offs(voices, offs).len() == voices.len(),
        forall|i: int|
            0 <= i < voices.len() ==> (#[trigger] after_note_offs(voices, offs)[i])
                .phasor.sample_rate == voices[i].phasor.sample_rate,
    decreases offs.len(),
{
    if offs.len() > 0 {
        lemma_note_offs_preserve_rates(voices, offs.drop_last());
        let mid = after_note_offs(voices, offs.drop_last());
        lemma_first_sounding_index(mid, offs.last());
        assert forall|i: int| 0 <= i < voices.len() implies (#[trigger] after_note_offs(
            voices,
            offs,
        )[i]).phasor.sample_rate == voices[i].phasor.sample_rate by {
            if first_sounding_index(mid, offs.last()) < mid.len() && i == first_sounding_index(
                mid,
                offs.last(),
            ) {
                assert(after_note_offs(voices, offs)[i] == mid[i].stopped());
            } else {
                assert(after_note_offs(voices, offs)[i] == mid[i]);
            }
        }
    }
}

/// Law: a note-off for a note no voice is sounding is a no-op — the pool
/// is unchanged, and the off pass simply finds no match.
pub proof fn lemma_note_off_not_sounding_noop(voices: Seq<VoiceModel>, note: u8)
    requires
        forall|i: int| 0 <= i < voices.len() ==> !sounds_note(#[trigger] voices[i], note),
    ensures
        after_note_off(voices, note) == voices,
{
    lemma_first_sounding_index(voices, note);
}

/// Law: on an all-idle pool, up to capacity-many note-ons each land on a
/// distinct idle voice — the i-th on voice i, stamped `clock + i` — and
/// voices beyond them stay untouched.
#[verifier::rlimit(100)]
pub proof fn lemma_ons_fill_idle_pool(voices: Seq<VoiceModel>, ons: Seq<(u8, u8)>, clock: int)
    requires
        0 < voices.len(),
        ons.len() <= voices.len(),
        forall|i: int| 0 <= i < voices.len() ==> !(#[trigger] voices[i]).is_sounding(),
        0 <= clock,
        clock + ons.len() <= u64::MAX,
    ensures
        after_note_ons(voices, ons, clock).0.len() == voices.len(),
        after_note_ons(voices, ons, clock).1 == clock + ons.len(),
        forall|i: int|
            0 <= i < ons.len() ==> after_note_ons(voices, ons, clock).0[i] == voices[i].started(
                on_note(#[trigger] ons[i]),
                clock + i,
            ),
        forall|i: int|
            ons.len() <= i < voices.len() ==> after_note_ons(voices, ons, clock).0[i] == (
            #[trigger] voices[i]),
    decreases ons.len(),
{
    if ons.len() > 0 {
        lemma_ons_fill_idle_pool(voices, ons.drop_last(), clock);
        let k: int = ons.len() - 1;
        let vs = after_note_ons(voices, ons.drop_last(), clock).0;
        let c = after_note_ons(voices, ons.drop_last(), clock).1;
        assert(ons.drop_last().len() == k);
        lemma_first_idle_index(vs);
        assert forall|j: int| 0 <= j < k implies (#[trigger] vs[j]).is_sounding() by {
            assert(ons.drop_last()[j] == ons[j]);
            assert(vs[j] == voices[j].started(on_note(ons[j]), clock + j));
        }
        assert(vs[k] == voices[k]);
        assert(!vs[k].is_sounding());
        assert(first_idle_index(vs) == k);
        assert(assign_index(vs) == k);
        assert(ons.last() == ons[k]);
        assert forall|i: int| 0 <= i < ons.len() implies after_note_ons(voices, ons, clock).0[i]
            == voices[i].started(on_note(#[trigger] ons[i]), clock + i) by {
            if i < k {
                assert(ons.drop_last()[i] == ons[i]);
                assert(after_note_ons(voices, ons, clock).0[i] == vs[i]);
            }
        }
    }
}

/// Law: with every voice sounding, a note-on steals exactly the voice with
/// the globally minimum recency stamp — the least recently triggered —
/// with ties broken by pool order, and touches no other voice.
pub proof fn lemma_on_steals_least_recent(
    voices: Seq<VoiceModel>,
    note: u8,
    velocity: u8,
    clock: int,
)
    requires
        0 < voices.len(),
        forall|i: int| 0 <= i < voices.len() ==> (#[trigger] voices[i]).is_sounding(),
    ensures
        0 <= steal_index(voices) < voices.len(),
        assign_index(voices) == steal_index(voices),
        forall|i: int|
            0 <= i < voices.len() ==> voices[steal_index(voices)].last_played_at <= (
            #[trigger] voices[i]).last_played_at,
        forall|i: int|
            0 <= i < steal_index(voices) ==> (#[trigger] voices[i]).last_played_at
                > voices[steal_index(voices)].last_played_at,
        assigned(voices, note, velocity, clock)[steal_index(voices)] == voices[steal_index(
            voices,
        )].started(on_note((note, velocity)), clock),
        forall|i: int|
            0 <= i < voices.len() && i != steal_index(voices) ==> assigned(
                voices,
                note,
                velocity,
                clock,
            )[i] == (#[trigger] voices[i]),
{
    lemma_first_idle_index(voices);
    assert(first_idle_index(voices) == voices.len());
    lemma_min_last_played(voices);
    lemma_first_index_with_stamp(voices, min_last_played(voices));
}

/// Law: a pool of capacity P, all idle, fed P + 1 note-ons in trigger
/// order: the first P land on distinct voices — the i-th on voice i — and
/// the last steals voice 0, whose stamp `clock` is the earliest.
#[verifier::rlimit(100)]
pub proof fn lemma_overflow_steals_earliest(
    voices: Seq<VoiceModel>,
    ons: Seq<(u8, u8)>,
    clock: int,
)
    requires
        0 < voices.len(),
        ons.len() == voices.len() + 1,
        forall|i: int| 0 <= i < voices.len() ==> !(#[trigger] voices[i]).is_sounding(),
        0 <= clock,
        clock + ons.len() <= u64::MAX,
    ensures
        after_note_ons(voices, ons, clock).0[0] == voices[0].started(
            on_note(ons[ons.len() - 1]),
            clock + voices.len(),
        ),
        forall|i: int|
            1 <= i < voices.len() ==> after_note_ons(voices, ons, clock).0[i]
                == voices[i].started(on_note(#[trigger] ons[i]), clock + i),
{
    lemma_ons_fill_idle_pool(voices, ons.drop_last(), clock);
    let vs = after_note_ons(voices, ons.drop_last(), clock).0;
    let c = after_note_ons(voices, ons.drop_last(), clock).1;
    assert(c == clock + voices.len());
    assert forall|i: int| 0 <= i < vs.len() implies (#[trigger] vs[i]).is_sounding() by {
        assert(ons.drop_last()[i] == ons[i]);
        assert(vs[i] == voices[i].started(on_note(ons[i]), clock + i));
    }
    lemma_on_steals_least_recent(vs, ons.last().0, ons.last().1, c);
    lemma_min_last_played(vs);
    assert(ons.drop_last()[0] == ons[0]);
    assert(vs[0] == voices[0].started(on_note(ons[0]), clock));
    assert(vs[0].last_played_at == clock);
    assert(min_last_played(vs) == clock) by {
        let w = choose|w: int|
            0 <= w < vs.len() && (#[trigger] vs[w]).last_played_at == min_last_played(vs);
        assert(ons.drop_last()[w] == ons[w]);
        assert(vs[w] == voices[w].started(on_note(ons[w]), clock + w));
    }
    lemma_first_index_with_stamp(vs, min_last_played(vs));
    assert(steal_index(vs) == 0);
    assert(ons.last() == ons[ons.len() - 1]);
    assert(vs[0].started(on_note(ons.last()), c) == voices[0].started(on_note(ons.last()), c));
    assert(after_note_ons(voices, ons, clock).0[0] == vs[0].started(on_note(ons.last()), c));
    assert forall|i: int| 1 <= i < voices.len() implies after_note_ons(voices, ons, clock).0[i]
        == voices[i].started(on_note(#[trigger] ons[i]), clock + i) by {
        assert(ons.drop_last()[i] == ons[i]);
        assert(vs[i] == voices[i].started(on_note(ons[i]), clock + i));
        assert(after_note_ons(voices, ons, clock).0[i] == vs[i]);
    }
}

} // verus!
