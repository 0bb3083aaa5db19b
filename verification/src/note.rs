//! MIDI notes and their tabulated frequencies.
//!
//! A key number is mapped to a frequency by the usual equal-tempered tuning
//! with A4 (key 69) at 440 Hz: `440 * 2^((key - 69) / 12)` Hz.  The table
//! below holds that curve rounded to the nearest millihertz, which fixes the
//! library's pitch resolution once and for all; key 69 is exactly 440000 and
//! key 127 the largest entry.

use vstd::arithmetic::div_mod::{lemma_div_by_multiple, lemma_div_is_ordered, lemma_div_pos_is_pos};
use vstd::prelude::*;

verus! {

/// The largest tabulated frequency, in millihertz: that of key 127.
pub const NOTE_FREQ_MAX_MILLIHZ: u64 = 12543854;

/// Number of semitones a full pitch-bend deflection spans.
pub const BEND_SEMITONES: u8 = 2;

/// A played MIDI note: channel `1..=16`, key number and velocity `0..=127`.
#[derive(Clone, Copy, Debug, PartialEq, Eq, Structural)]
pub struct MidiNote {
    pub channel: u8,
    pub note: u8,
    pub velocity: u8,
}

impl MidiNote {
    pub open spec fn wf(self) -> bool {
        &&& 1 <= self.channel <= 16
        &&& self.note <= 127
        &&& self.velocity <= 127
    }
}

/// The tabulated frequency of a key, in millihertz; keys above 127 do not
/// occur and are mapped to zero.
pub open spec fn note_frequency_millihz(key: u8) -> u64 {
    match key {
        0 => 8176,
        1 => 8662,
        2 => 9177,
        3 => 9723,
        4 => 10301,
        5 => 10913,
        6 => 11562,
        7 => 12250,
        8 => 12978,
        9 => 13750,
        10 => 14568,
        11 => 15434,
        12 => 16352,
        13 => 17324,
        14 => 18354,
        15 => 19445,
        16 => 20602,
        17 => 21827,
        18 => 23125,
        19 => 24500,
        20 => 25957,
        21 => 27500,
        22 => 29135,
        23 => 30868,
        24 => 32703,
        25 => 34648,
        26 => 36708,
        27 => 38891,
        28 => 41203,
        29 => 43654,
        30 => 46249,
        31 => 48999,
        32 => 51913,
        33 => 55000,
        34 => 58270,
        35 => 61735,
        36 => 65406,
        37 => 69296,
        38 => 73416,
        39 => 77782,
        40 => 82407,
        41 => 87307,
        42 => 92499,
        43 => 97999,
        44 => 103826,
        45 => 110000,
        46 => 116541,
        47 => 123471,
        48 => 130813,
        49 => 138591,
        50 => 146832,
        51 => 155563,
        52 => 164814,
        53 => 174614,
        54 => 184997,
        55 => 195998,
        56 => 207652,
        57 => 220000,
        58 => 233082,
        59 => 246942,
        60 => 261626,
        61 => 277183,
        62 => 293665,
        63 => 311127,
        64 => 329628,
        65 => 349228,
        66 => 369994,
        67 => 391995,
        68 => 415305,
        69 => 440000,
        70 => 466164,
        71 => 493883,
        72 => 523251,
        73 => 554365,
        74 => 587330,
        75 => 622254,
        76 => 659255,
        77 => 698456,
        78 => 739989,
        79 => 783991,
        80 => 830609,
        81 => 880000,
        82 => 932328,
        83 => 987767,
        84 => 1046502,
        85 => 1108731,
        86 => 1174659,
        87 => 1244508,
        88 => 1318510,
        89 => 1396913,
        90 => 1479978,
        91 => 1567982,
        92 => 1661219,
        93 => 1760000,
        94 => 1864655,
        95 => 1975533,
        96 => 2093005,
        97 => 2217461,
        98 => 2349318,
        99 => 2489016,
        100 => 2637020,
        101 => 2793826,
        102 => 2959955,
        103 => 3135963,
        104 => 3322438,
        105 => 3520000,
        106 => 3729310,
        107 => 3951066,
        108 => 4186009,
        109 => 4434922,
        110 => 4698636,
        111 => 4978032,
        112 => 5274041,
        113 => 5587652,
        114 => 5919911,
        115 => 6271927,
        116 => 6644875,
        117 => 7040000,
        118 => 7458620,
        119 => 7902133,
        120 => 8372018,
        121 => 8869844,
        122 => 9397273,
        123 => 9956063,
        124 => 10548082,
        125 => 11175303,
        126 => 11839822,
        127 => 12543854,
        _ => 0,
    }
}

/// Looks up the tabulated frequency of a key, in millihertz.
///
/// Beyond the table value itself, callers learn that every entry is bounded
/// by [`NOTE_FREQ_MAX_MILLIHZ`] and that the table grows strictly from a key
/// to the key two semitones above it — the facts the pitch-bend arithmetic
/// leans on.
#[verifier::rlimit(60)]
pub fn note_freq_millihz(key: u8) -> (r: u64)
    requires
        key <= 127,
    ensures
        r == note_frequency_millihz(key),
        r <= NOTE_FREQ_MAX_MILLIHZ,
        key <= 125 ==> note_frequency_millihz(key) < note_frequency_millihz((key + 2) as u8),
        key >= 2 ==> note_frequency_millihz((key - 2) as u8) < note_frequency_millihz(key),
{
    match key {
        0 => 8176,
        1 => 8662,
        2 => 9177,
        3 => 9723,
        4 => 10301,
        5 => 10913,
        6 => 11562,
        7 => 12250,
        8 => 12978,
        9 => 13750,
        10 => 14568,
        11 => 15434,
        12 => 16352,
        13 => 17324,
        14 => 18354,
        15 => 19445,
        16 => 20602,
        17 => 21827,
        18 => 23125,
        19 => 24500,
        20 => 25957,
        21 => 27500,
        22 => 29135,
        23 => 30868,
        24 => 32703,
        25 => 34648,
        26 => 36708,
        27 => 38891,
        28 => 41203,
        29 => 43654,
        30 => 46249,
        31 => 48999,
        32 => 51913,
        33 => 55000,
        34 => 58270,
        35 => 61735,
        36 => 65406,
        37 => 69296,
        38 => 73416,
        39 => 77782,
        40 => 82407,
        41 => 87307,
        42 => 92499,
        43 => 97999,
        44 => 103826,
        45 => 110000,
        46 => 116541,
        47 => 123471,
        48 => 130813,
        49 => 138591,
        50 => 146832,
        51 => 155563,
        52 => 164814,
        53 => 174614,
        54 => 184997,
        55 => 195998,
        56 => 207652,
        57 => 220000,
        58 => 233082,
        59 => 246942,
        60 => 261626,
        61 => 277183,
        62 => 293665,
        63 => 311127,
        64 => 329628,
        65 => 349228,
        66 => 369994,
        67 => 391995,
        68 => 415305,
        69 => 440000,
        70 => 466164,
        71 => 493883,
        72 => 523251,
        73 => 554365,
        74 => 587330,
        75 => 622254,
        76 => 659255,
        77 => 698456,
        78 => 739989,
        79 => 783991,
        80 => 830609,
        81 => 880000,
        82 => 932328,
        83 => 987767,
        84 => 1046502,
        85 => 1108731,
        86 => 1174659,
        87 => 1244508,
        88 => 1318510,
        89 => 1396913,
        90 => 1479978,
        91 => 1567982,
        92 => 1661219,
        93 => 1760000,
        94 => 1864655,
        95 => 1975533,
        96 => 2093005,
        97 => 2217461,
        98 => 2349318,
        99 => 2489016,
        100 => 2637020,
        101 => 2793826,
        102 => 2959955,
        103 => 3135963,
        104 => 3322438,
        105 => 3520000,
        106 => 3729310,
        107 => 3951066,
        108 => 4186009,
        109 => 4434922,
        110 => 4698636,
        111 => 4978032,
        112 => 5274041,
        113 => 5587652,
        114 => 5919911,
        115 => 6271927,
        116 => 6644875,
        117 => 7040000,
        118 => 7458620,
        119 => 7902133,
        120 => 8372018,
        121 => 8869844,
        122 => 9397273,
        123 => 9956063,
        124 => 10548082,
        125 => 11175303,
        126 => 11839822,
        127 => 12543854,
        _ => 0,
    }
}

/// Raw 14-bit pitch-bend value meaning "no bend".
pub const PITCH_BEND_CENTER: u16 = 8192;

/// Largest raw 14-bit pitch-bend value.
pub const PITCH_BEND_MAX: u16 = 16383;

/// The frequency a full bend deflection aims at: the tabulated frequency
/// [`BEND_SEMITONES`] semitones up or down, or the key's own frequency where
/// the table ends and the bend has nothing to reach.
pub open spec fn bend_target_millihz(key: u8, upward: bool) -> u64 {
    if upward {
        if key <= 127 - BEND_SEMITONES {
            note_frequency_millihz((key + BEND_SEMITONES) as u8)
        } else {
            note_frequency_millihz(key)
        }
    } else {
        if key >= BEND_SEMITONES {
            note_frequency_millihz((key - BEND_SEMITONES) as u8)
        } else {
            note_frequency_millihz(key)
        }
    }
}

/// Effective frequency of a key under a raw pitch-bend value, in
/// millihertz.
///
/// A raw value `b` deflects by the fraction `(b - 8192) / 8192` of the
/// distance from the key's tabulated frequency to the bend target in the
/// deflection's direction; the scaled distance is rounded down, so the
/// result errs toward the base frequency.
pub open spec fn effective_freq_millihz(key: u8, bend: int) -> int {
    let base = note_frequency_millihz(key) as int;
    if bend >= PITCH_BEND_CENTER {
        let target = bend_target_millihz(key, true) as int;
        let diff = if target >= base {
            target - base
        } else {
            base - target
        };
        base + diff * (bend - PITCH_BEND_CENTER) / (PITCH_BEND_CENTER as int)
    } else {
        let target = bend_target_millihz(key, false) as int;
        let diff = if target >= base {
            target - base
        } else {
            base - target
        };
        base - diff * (PITCH_BEND_CENTER - bend) / (PITCH_BEND_CENTER as int)
    }
}

/// Largest frequency a key can reach under any admissible bend: the upward
/// bend target (which the table makes at least the base frequency).
pub open spec fn max_bent_freq_millihz(key: u8) -> int {
    let base = note_frequency_millihz(key) as int;
    let target = bend_target_millihz(key, true) as int;
    if target >= base {
        target
    } else {
        base
    }
}

/// A distance scaled by at most a whole bend deflection, rounding down,
/// never grows.
pub proof fn lemma_bend_delta_le(diff: int, amount: int)
    requires
        0 <= diff,
        0 <= amount <= 8192,
    ensures
        0 <= diff * amount / 8192 <= diff,
{
    assert(0 <= diff * amount) by (nonlinear_arith)
        requires
            0 <= diff && 0 <= amount,
    ;
    assert(diff * amount <= diff * 8192) by (nonlinear_arith)
        requires
            0 <= diff && amount <= 8192,
    ;
    lemma_div_pos_is_pos(diff * amount, 8192);
    lemma_div_is_ordered(diff * amount, diff * 8192, 8192);
    lemma_div_by_multiple(diff, 8192);
}

} // verus!
