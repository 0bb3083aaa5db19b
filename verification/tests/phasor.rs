use elysium::phasor::Phasor;

/// A phasor at half the sampling rate wraps around once it reaches 1.0:
/// the yielded positions are 0.0, 0.5, 0.0.
#[test]
fn phasor_wraps_around() {
    let mut phasor = Phasor::new(2000, 1000);
    let p0 = phasor.next_phase();
    let p1 = phasor.next_phase();
    let p2 = phasor.next_phase();
    assert_eq!(p0.numerator as f64 / p0.denominator as f64, 0.0);
    assert_eq!(p1.numerator as f64 / p1.denominator as f64, 0.5);
    assert_eq!(p2.numerator as f64 / p2.denominator as f64, 0.0);
}

/// A phasor at audio rates: the first call yields 0, the second exactly
/// 440 / 44100 of a cycle.
#[test]
fn phasor_audio_rate() {
    let mut phasor = Phasor::new(44_100_000, 440_000);
    let p0 = phasor.next_phase();
    assert_eq!(p0.numerator, 0);
    assert_eq!(p0.numerator as f64 / p0.denominator as f64, 0.0);
    let p1 = phasor.next_phase();
    assert_eq!(p1.numerator, 440_000);
    assert_eq!(p1.denominator, 44_100_000);
    assert_eq!(p1.numerator as f64 / p1.denominator as f64, 0.009977324263038548);
}

/// After k advances the position is (k * freq / sample_rate) mod 1,
/// exactly: the k-th yielded numerator is (k * freq) mod sample_rate.
#[test]
fn phasor_closed_form() {
    let sample_rate: u64 = 48_000_000;
    let freq: u64 = 7_654_321;
    let mut phasor = Phasor::new(sample_rate, freq);
    for k in 0..1000u64 {
        let p = phasor.next_phase();
        assert_eq!(p.numerator, (k * freq) % sample_rate);
        assert_eq!(p.denominator, sample_rate);
    }
}

/// A frequency equal to the sampling rate advances by a whole cycle per
/// sample: the position never moves.
#[test]
fn phasor_full_cycle_per_sample() {
    let mut phasor = Phasor::new(1000, 1000);
    for _ in 0..10 {
        assert_eq!(phasor.next_phase().numerator, 0);
    }
}

/// A zero frequency never advances.
#[test]
fn phasor_zero_freq_is_still() {
    let mut phasor = Phasor::new(44_100_000, 0);
    for _ in 0..10 {
        assert_eq!(phasor.next_phase().numerator, 0);
    }
}

/// Reset zeroes the position but keeps rate and frequency.
#[test]
fn phasor_reset() {
    let mut phasor = Phasor::new(2000, 500);
    phasor.next_phase();
    phasor.next_phase();
    assert_eq!(phasor.next_phase().numerator, 1000);
    phasor.reset();
    assert_eq!(phasor.sample_rate(), 2000);
    assert_eq!(phasor.freq(), 500);
    assert_eq!(phasor.next_phase().numerator, 0);
}

/// Changing the sampling rate keeps the position's place in the cycle,
/// rescaled to the new denominator.
#[test]
fn phasor_set_sample_rate_keeps_position() {
    let mut phasor = Phasor::new(1000, 250);
    phasor.next_phase();
    // Position is now 250 / 1000 = one quarter cycle.
    phasor.set_sample_rate(2000);
    assert_eq!(phasor.sample_rate(), 2000);
    assert_eq!(phasor.freq(), 250);
    let p = phasor.next_phase();
    assert_eq!(p.numerator, 500);
    assert_eq!(p.denominator, 2000);
}

/// Changing the frequency changes the step, not the position.
#[test]
fn phasor_set_freq() {
    let mut phasor = Phasor::new(1000, 100);
    phasor.next_phase();
    phasor.set_freq(300);
    assert_eq!(phasor.freq(), 300);
    let p = phasor.next_phase();
    assert_eq!(p.numerator, 100);
    assert_eq!(phasor.next_phase().numerator, 400);
}
