//! MIDI wire-format parsing and the per-block event reducer.
//!
//! A block's raw MIDI input arrives as a sequence of byte frames, each a
//! candidate wire-format message.  [`parse_midi_message`] decodes one frame
//! under the grammar below, and [`MidiState`] folds a whole block's frames
//! into a coalesced delta: which notes were turned on (with their latest
//! velocity, in trigger order), which were turned off, and the latest
//! pitch-bend value, which persists across blocks.

use crate::note::{PITCH_BEND_CENTER, PITCH_BEND_MAX};
use vstd::prelude::*;

verus! {

/// A domain event decoded from one raw MIDI byte frame.
#[derive(Clone, Copy, Debug, PartialEq, Eq, Structural)]
pub enum MidiEvent {
    NoteOn { channel: u8, note: u8, velocity: u8 },
    NoteOff { channel: u8, note: u8, velocity: u8 },
    PitchBend { channel: u8, value: u16 },
}

/// The wire grammar of one frame: a status byte whose high nibble selects
/// the kind — 9 note-on, 8 note-off, 14 pitch-bend — and whose low nibble
/// is the channel (wire 0..15, domain 1..=16), followed by exactly two data
/// bytes, each below 0x80.  A pitch-bend value is the unsigned 14-bit
/// number `lsb + 128 * msb`.  Anything else — a malformed frame or a kind
/// this core ignores — decodes to nothing.
pub open spec fn parse_midi_message_spec(frame: Seq<u8>) -> Option<MidiEvent> {
    if frame.len() == 3 && frame[1] < 128 && frame[2] < 128 {
        let kind = frame[0] / 16;
        let channel = (frame[0] % 16 + 1) as u8;
        if kind == 9 {
            Some(MidiEvent::NoteOn { channel, note: frame[1], velocity: frame[2] })
        } else if kind == 8 {
            Some(MidiEvent::NoteOff { channel, note: frame[1], velocity: frame[2] })
        } else if kind == 14 {
            Some(MidiEvent::PitchBend { channel, value: (frame[1] + frame[2] * 128) as u16 })
        } else {
            None
        }
    } else {
        None
    }
}

/// Decodes one raw byte frame, or nothing for a frame that is malformed or
/// of a kind this core ignores.
pub fn parse_midi_message(frame: &Vec<u8>) -> (r: Option<MidiEvent>)
    ensures
        r == parse_midi_message_spec(frame@),
{
    if frame.len() != 3 {
        return None;
    }
    let b0 = frame[0];
    let b1 = frame[1];
    let b2 = frame[2];
    if b1 >= 128 || b2 >= 128 {
        return None;
    }
    let kind = b0 / 16;
    let channel = b0 % 16 + 1;
    if kind == 9 {
        Some(MidiEvent::NoteOn { channel, note: b1, velocity: b2 })
    } else if kind == 8 {
        Some(MidiEvent::NoteOff { channel, note: b1, velocity: b2 })
    } else if kind == 14 {
        Some(MidiEvent::PitchBend { channel, value: b1 as u16 + (b2 as u16) * 128 })
    } else {
        None
    }
}

/// The turned-on sequence with every entry for `note` removed, order
/// otherwise kept.
pub open spec fn remove_key(ons: Seq<(u8, u8)>, note: u8) -> Seq<(u8, u8)>
    decreases ons.len(),
{
    if ons.len() == 0 {
        Seq::empty()
    } else {
        let prefix = remove_key(ons.drop_last(), note);
        if ons.last().0 == note {
            prefix
        } else {
            prefix.push(ons.last())
        }
    }
}

/// The turned-off sequence with `note` appended if it is not already there.
pub open spec fn insert_unique(offs: Seq<u8>, note: u8) -> Seq<u8> {
    if offs.contains(note) {
        offs
    } else {
        offs.push(note)
    }
}

/// Whether some turned-on entry carries `note` as its key.
pub open spec fn ons_contain(ons: Seq<(u8, u8)>, note: u8) -> bool {
    exists|i: int| 0 <= i < ons.len() && ons[i].0 == note
}

/// Mathematical model of a [`MidiState`]: the per-block on and off deltas
/// and the persistent raw pitch-bend value.
pub ghost struct MidiStateModel {
    pub notes_turned_on: Seq<(u8, u8)>,
    pub notes_turned_off: Seq<u8>,
    pub pitch_bend: int,
}

impl MidiStateModel {
    /// The reducer invariant: turned-on entries have unique keys and
    /// in-range fields, turned-off notes are unique and in range, and the
    /// bend value is a 14-bit quantity.
    pub open spec fn wf(self) -> bool {
        &&& forall|i: int, j: int|
            0 <= i < j < self.notes_turned_on.len() ==> (#[trigger] self.notes_turned_on[i]).0
                != (#[trigger] self.notes_turned_on[j]).0
        &&& forall|i: int|
            0 <= i < self.notes_turned_on.len() ==> (#[trigger] self.notes_turned_on[i]).0 <= 127
                && self.notes_turned_on[i].1 <= 127
        &&& forall|i: int, j: int|
            0 <= i < j < self.notes_turned_off.len() ==> (#[trigger] self.notes_turned_off[i])
                != (#[trigger] self.notes_turned_off[j])
        &&& forall|i: int|
            0 <= i < self.notes_turned_off.len() ==> (#[trigger] self.notes_turned_off[i]) <= 127
        &&& 0 <= self.pitch_bend <= PITCH_BEND_MAX
    }

    /// The empty per-block delta around a given persistent bend value.
    pub open spec fn cleared(self) -> MidiStateModel {
        MidiStateModel {
            notes_turned_on: Seq::empty(),
            notes_turned_off: Seq::empty(),
            pitch_bend: self.pitch_bend,
        }
    }
}

/// The reducer state after one decoded event.  A note-on re-keys the note
/// to the end of the turned-on order with its new velocity and marks the
/// note turned off too, so a later reconciliation treats it as a fresh
/// trigger; a note-off nets the note out of turned-on and marks it off; a
/// pitch-bend overwrites the persistent value; anything else changes
/// nothing.
pub open spec fn apply_event(s: MidiStateModel, ev: Option<MidiEvent>) -> MidiStateModel {
    match ev {
        Some(MidiEvent::NoteOn { note, velocity, .. }) => MidiStateModel {
            notes_turned_on: remove_key(s.notes_turned_on, note).push((note, velocity)),
            notes_turned_off: insert_unique(s.notes_turned_off, note),
            pitch_bend: s.pitch_bend,
        },
        Some(MidiEvent::NoteOff { note, .. }) => MidiStateModel {
            notes_turned_on: remove_key(s.notes_turned_on, note),
            notes_turned_off: insert_unique(s.notes_turned_off, note),
            pitch_bend: s.pitch_bend,
        },
        Some(MidiEvent::PitchBend { value, .. }) => MidiStateModel {
            notes_turned_on: s.notes_turned_on,
            notes_turned_off: s.notes_turned_off,
            pitch_bend: value as int,
        },
        None => s,
    }
}

/// The reducer state after folding a whole block's frames, in order.
pub open spec fn reduce_messages(s: MidiStateModel, frames: Seq<Seq<u8>>) -> MidiStateModel
    decreases frames.len(),
{
    if frames.len() == 0 {
        s
    } else {
        apply_event(
            reduce_messages(s, frames.drop_last()),
            parse_midi_message_spec(frames.last()),
        )
    }
}

/// Per-block reducer state: the notes turned on this block with their
/// latest velocities in trigger order, the notes turned off this block, and
/// the latest pitch-bend value, which persists across blocks.
#[derive(Debug)]
pub struct MidiState {
    notes_turned_on: Vec<(u8, u8)>,
    notes_turned_off: Vec<u8>,
    pitch_bend: u16,
}

impl View for MidiState {
    type V = MidiStateModel;

    closed spec fn view(&self) -> MidiStateModel {
        MidiStateModel {
            notes_turned_on: self.notes_turned_on@,
            notes_turned_off: self.notes_turned_off@,
            pitch_bend: self.pitch_bend as int,
        }
    }
}

impl MidiState {
    pub open spec fn wf(self) -> bool {
        self@.wf()
    }

    /// Creates an empty reducer state with a centered bend.
    pub fn new() -> (r: Self)
        ensures
            r.wf(),
            r@.notes_turned_on == Seq::<(u8, u8)>::empty(),
            r@.notes_turned_off == Seq::<u8>::empty(),
            r@.pitch_bend == PITCH_BEND_CENTER,
    {
        MidiState {
            notes_turned_on: Vec::new(),
            notes_turned_off: Vec::new(),
            pitch_bend: PITCH_BEND_CENTER,
        }
    }

    /// The notes turned on this block with their velocities, in trigger
    /// order.
    pub fn notes_turned_on(&self) -> (r: &Vec<(u8, u8)>)
        ensures
            r@ == self@.notes_turned_on,
    {
        &self.notes_turned_on
    }

    /// The notes turned off this block.
    pub fn notes_turned_off(&self) -> (r: &Vec<u8>)
        ensures
            r@ == self@.notes_turned_off,
    {
        &self.notes_turned_off
    }

    /// The latest raw pitch-bend value.
    pub fn pitch_bend(&self) -> (r: u16)
        ensures
            r as int == self@.pitch_bend,
    {
        self.pitch_bend
    }

    /// Clears the per-block deltas and folds a block's frames, in order.
    /// The bend value carries over from the previous block unless a frame
    /// overwrites it.
    pub fn process_midi_messages(&mut self, frames: &Vec<Vec<u8>>)
        requires
            old(self).wf(),
        ensures
            final(self).wf(),
            final(self)@ == reduce_messages(old(self)@.cleared(), frames.deep_view()),
    {
        let ghost init = self@.cleared();
        self.notes_turned_on = Vec::new();
        self.notes_turned_off = Vec::new();
        let mut i: usize = 0;
        while i < frames.len()
            invariant
                i <= frames.len(),
                self.wf(),
                self@ == reduce_messages(init, frames.deep_view().take(i as int)),
                init.wf(),
            decreases frames.len() - i,
        {
            let ghost prev = self@;
            let ghost fv = frames.deep_view();
            assert(fv.take(i + 1).drop_last() =~= fv.take(i as int));
            assert(fv.take(i + 1).last() == frames[i as int]@);
            let ev = parse_midi_message(&frames[i]);
            match ev {
                Some(MidiEvent::NoteOn { channel: _, note, velocity }) => {
                    proof {
                        lemma_remove_key_elements(prev.notes_turned_on, note);
                        lemma_remove_key_unique(prev.notes_turned_on, note);
                    }
                    vec_insert_unique(&mut self.notes_turned_off, note);
                    assert(self@.notes_turned_off == insert_unique(prev.notes_turned_off, note));
                    self.notes_turned_on = vec_without_key(&self.notes_turned_on, note);
                    self.notes_turned_on.push((note, velocity));
                    assert(self@.notes_turned_on == remove_key(prev.notes_turned_on, note).push(
                        (note, velocity),
                    ));
                }
                Some(MidiEvent::NoteOff { channel: _, note, velocity: _ }) => {
                    proof {
                        lemma_remove_key_elements(prev.notes_turned_on, note);
                        lemma_remove_key_unique(prev.notes_turned_on, note);
                    }
                    self.notes_turned_on = vec_without_key(&self.notes_turned_on, note);
                    assert(self@.notes_turned_on == remove_key(prev.notes_turned_on, note));
                    vec_insert_unique(&mut self.notes_turned_off, note);
                    assert(self@.notes_turned_off == insert_unique(prev.notes_turned_off, note));
                }
                Some(MidiEvent::PitchBend { channel: _, value }) => {
                    self.pitch_bend = value;
                }
                None => {}
            }
            assert(self.wf());
            assert(self@ == reduce_messages(init, frames.deep_view().take(i + 1)));
            i = i + 1;
        }
        assert(frames.deep_view().take(frames.len() as int) =~= frames.deep_view());
    }
}

/// A copy of `ons` without the entries for `note`, order otherwise kept.
fn vec_without_key(ons: &Vec<(u8, u8)>, note: u8) -> (r: Vec<(u8, u8)>)
    ensures
        r@ == remove_key(ons@, note),
{
    let mut kept: Vec<(u8, u8)> = Vec::new();
    let mut i: usize = 0;
    while i < ons.len()
        invariant
            i <= ons.len(),
            kept@ == remove_key(ons@.take(i as int), note),
        decreases ons.len() - i,
    {
        assert(ons@.take(i + 1).drop_last() =~= ons@.take(i as int));
        let entry = ons[i];
        if entry.0 != note {
            kept.push(entry);
        }
        i = i + 1;
    }
    assert(ons@.take(ons.len() as int) =~= ons@);
    kept
}

/// Appends `note` unless it is already present.
fn vec_insert_unique(offs: &mut Vec<u8>, note: u8)
    ensures
        final(offs)@ == insert_unique(old(offs)@, note),
{
    let mut i: usize = 0;
    let mut found = false;
    while i < offs.len()
        invariant
            i <= offs.len(),
            offs@ == old(offs)@,
            found <==> exists|j: int| 0 <= j < i && offs@[j] == note,
        decreases offs.len() - i,
    {
        if offs[i] == note {
            found = true;
        }
        i = i + 1;
    }
    if !found {
        offs.push(note);
    }
}

/// No entry of the removal's result carries the removed key, and every
/// entry was an entry before.
pub proof fn lemma_remove_key_elements(ons: Seq<(u8, u8)>, note: u8)
    ensures
        forall|i: int|
            0 <= i < remove_key(ons, note).len() ==> (#[trigger] remove_key(ons, note)[i]).0
                != note,
        forall|i: int|
            0 <= i < remove_key(ons, note).len() ==> ons.contains(
                #[trigger] remove_key(ons, note)[i],
            ),
    decreases ons.len(),
{
    let r = remove_key(ons, note);
    if ons.len() > 0 {
        lemma_remove_key_elements(ons.drop_last(), note);
        let prefix = remove_key(ons.drop_last(), note);
        assert forall|i: int| 0 <= i < r.len() implies r[i].0 != note && ons.contains(r[i]) by {
            if ons.last().0 == note || i < r.len() - 1 {
                assert(r[i] == prefix[i]);
                assert(ons.drop_last().contains(prefix[i]));
                let w = choose|w: int|
                    0 <= w < ons.drop_last().len() && ons.drop_last()[w] == prefix[i];
                assert(ons[w] == r[i]);
            } else {
                assert(r[i] == ons.last());
                assert(ons[ons.len() - 1] == ons.last());
            }
        }
    }
}

/// Whether a decoded event is a note-on for `note`.
pub open spec fn is_note_on_of(ev: Option<MidiEvent>, note: u8) -> bool {
    match ev {
        Some(MidiEvent::NoteOn { note: n, .. }) => n == note,
        _ => false,
    }
}

/// Whether a decoded event is a note-off for `note`.
pub open spec fn is_note_off_of(ev: Option<MidiEvent>, note: u8) -> bool {
    match ev {
        Some(MidiEvent::NoteOff { note: n, .. }) => n == note,
        _ => false,
    }
}

/// Folding a block splits at any point: reducing a concatenation is
/// reducing the first part, then the second from there.
pub proof fn lemma_reduce_append(s: MidiStateModel, a: Seq<Seq<u8>>, b: Seq<Seq<u8>>)
    ensures
        reduce_messages(s, a + b) == reduce_messages(reduce_messages(s, a), b),
    decreases b.len(),
{
    if b.len() == 0 {
        assert(a + b =~= a);
    } else {
        lemma_reduce_append(s, a, b.drop_last());
        assert((a + b).drop_last() =~= a + b.drop_last());
        assert((a + b).last() == b.last());
    }
}

/// Inserting always leaves the inserted note present.
pub proof fn lemma_insert_unique_contains(offs: Seq<u8>, note: u8)
    ensures
        insert_unique(offs, note).contains(note),
{
    if !offs.contains(note) {
        assert(offs.push(note)[offs.len() as int] == note);
    }
}

/// Inserting never removes a note already present.
pub proof fn lemma_insert_unique_preserves(offs: Seq<u8>, inserted: u8, note: u8)
    requires
        offs.contains(note),
    ensures
        insert_unique(offs, inserted).contains(note),
{
    let w = choose|w: int| 0 <= w < offs.len() && offs[w] == note;
    if !offs.contains(inserted) {
        assert(offs.push(inserted)[w] == note);
    }
}

/// Removing one key cannot introduce another.
pub proof fn lemma_remove_key_absent(ons: Seq<(u8, u8)>, removed: u8, note: u8)
    requires
        !ons_contain(ons, note),
    ensures
        !ons_contain(remove_key(ons, removed), note),
{
    let r = remove_key(ons, removed);
    lemma_remove_key_elements(ons, removed);
    assert forall|i: int| 0 <= i < r.len() implies (#[trigger] r[i]).0 != note by {
        assert(ons.contains(r[i]));
        let w = choose|w: int| 0 <= w < ons.len() && ons[w] == r[i];
        assert(ons[w].0 != note);
    }
}

/// Law: a note a block's reduction has marked turned off stays marked
/// through the rest of the block — nothing removes from "turned off".
pub proof fn lemma_turned_off_persists(s: MidiStateModel, frames: Seq<Seq<u8>>, note: u8)
    requires
        s.notes_turned_off.contains(note),
    ensures
        reduce_messages(s, frames).notes_turned_off.contains(note),
    decreases frames.len(),
{
    if frames.len() > 0 {
        lemma_turned_off_persists(s, frames.drop_last(), note);
        let mid = reduce_messages(s, frames.drop_last());
        match parse_midi_message_spec(frames.last()) {
            Some(MidiEvent::NoteOn { note: n, .. }) => {
                lemma_insert_unique_preserves(mid.notes_turned_off, n, note);
            }
            Some(MidiEvent::NoteOff { note: n, .. }) => {
                lemma_insert_unique_preserves(mid.notes_turned_off, n, note);
            }
            _ => {}
        }
    }
}

/// Law: a note absent from "turned on" stays absent through frames none of
/// which decodes to a note-on for it.
pub proof fn lemma_turned_on_stays_absent(s: MidiStateModel, frames: Seq<Seq<u8>>, note: u8)
    requires
        !ons_contain(s.notes_turned_on, note),
        forall|i: int|
            0 <= i < frames.len() ==> !is_note_on_of(
                parse_midi_message_spec(#[trigger] frames[i]),
                note,
            ),
    ensures
        !ons_contain(reduce_messages(s, frames).notes_turned_on, note),
    decreases frames.len(),
{
    if frames.len() > 0 {
        assert(forall|i: int|
            0 <= i < frames.drop_last().len() ==> !is_note_on_of(
                parse_midi_message_spec(#[trigger] frames.drop_last()[i]),
                note,
            ));
        lemma_turned_on_stays_absent(s, frames.drop_last(), note);
        let mid = reduce_messages(s, frames.drop_last());
        let r = reduce_messages(s, frames);
        match parse_midi_message_spec(frames.last()) {
            Some(MidiEvent::NoteOn { note: n, velocity, .. }) => {
                assert(!is_note_on_of(parse_midi_message_spec(frames[frames.len() - 1]), note));
                lemma_remove_key_absent(mid.notes_turned_on, n, note);
                let pushed = remove_key(mid.notes_turned_on, n).push((n, velocity));
                assert forall|i: int| 0 <= i < pushed.len() implies (#[trigger] pushed[i]).0
                    != note by {
                    if i < pushed.len() - 1 {
                        assert(pushed[i] == remove_key(mid.notes_turned_on, n)[i]);
                    }
                }
            }
            Some(MidiEvent::NoteOff { note: n, .. }) => {
                lemma_remove_key_absent(mid.notes_turned_on, n, note);
            }
            _ => {}
        }
    }
}

/// Law: if some frame of a block decodes to a note-off for `note` and no
/// later frame decodes to a note-on for it, the block's reduction ends with
/// `note` absent from "turned on" and present in "turned off".  In
/// particular, a note turned on and then off within one block nets to not
/// turned on.
pub proof fn lemma_note_off_settles_block(
    s: MidiStateModel,
    frames: Seq<Seq<u8>>,
    k: int,
    note: u8,
)
    requires
        0 <= k < frames.len(),
        is_note_off_of(parse_midi_message_spec(frames[k]), note),
        forall|i: int|
            k < i < frames.len() ==> !is_note_on_of(
                parse_midi_message_spec(#[trigger] frames[i]),
                note,
            ),
    ensures
        !ons_contain(reduce_messages(s, frames).notes_turned_on, note),
        reduce_messages(s, frames).notes_turned_off.contains(note),
{
    let pre = frames.take(k + 1);
    let post = frames.skip(k + 1);
    assert(frames =~= pre + post);
    lemma_reduce_append(s, pre, post);
    assert(pre.drop_last() =~= frames.take(k));
    assert(pre.last() == frames[k]);
    let before = reduce_messages(s, frames.take(k));
    let mid = reduce_messages(s, pre);
    lemma_remove_key_elements(before.notes_turned_on, note);
    assert(!ons_contain(mid.notes_turned_on, note));
    lemma_insert_unique_contains(before.notes_turned_off, note);
    assert(forall|i: int|
        0 <= i < post.len() ==> !is_note_on_of(
            parse_midi_message_spec(#[trigger] post[i]),
            note,
        ));
    lemma_turned_on_stays_absent(mid, post, note);
    lemma_turned_off_persists(mid, post, note);
}

/// The note deltas of a block do not depend on the bend value carried in
/// from the previous block.
pub proof fn lemma_reduce_deltas_ignore_bend(
    s1: MidiStateModel,
    s2: MidiStateModel,
    frames: Seq<Seq<u8>>,
)
    requires
        s1.notes_turned_on == s2.notes_turned_on,
        s1.notes_turned_off == s2.notes_turned_off,
    ensures
        reduce_messages(s1, frames).notes_turned_on == reduce_messages(
            s2,
            frames,
        ).notes_turned_on,
        reduce_messages(s1, frames).notes_turned_off == reduce_messages(
            s2,
            frames,
        ).notes_turned_off,
    decreases frames.len(),
{
    if frames.len() > 0 {
        lemma_reduce_deltas_ignore_bend(s1, s2, frames.drop_last());
    }
}

/// Removal keeps turned-on keys unique.
pub proof fn lemma_remove_key_unique(ons: Seq<(u8, u8)>, note: u8)
    requires
        forall|i: int, j: int|
            0 <= i < j < ons.len() ==> (#[trigger] ons[i]).0 != (#[trigger] ons[j]).0,
    ensures
        forall|i: int, j: int|
            0 <= i < j < remove_key(ons, note).len() ==> (#[trigger] remove_key(ons, note)[i]).0
                != (#[trigger] remove_key(ons, note)[j]).0,
    decreases ons.len(),
{
    if ons.len() > 0 {
        lemma_remove_key_unique(ons.drop_last(), note);
        lemma_remove_key_elements(ons.drop_last(), note);
        let r = remove_key(ons, note);
        let prefix = remove_key(ons.drop_last(), note);
        if ons.last().0 != note {
            assert forall|i: int, j: int| 0 <= i < j < r.len() implies r[i].0 != r[j].0 by {
                if j < r.len() - 1 {
                    assert(r[i] == prefix[i] && r[j] == prefix[j]);
                } else {
                    assert(r[j] == ons.last());
                    assert(r[i] == prefix[i]);
                    let w = choose|w: int|
                        0 <= w < ons.drop_last().len() && ons.drop_last()[w] == prefix[i];
                    assert(ons[w] == prefix[i]);
                    assert(ons[w].0 != ons[ons.len() - 1].0);
                }
            }
        }
    }
}

} // verus!
