use darkhill::voice::{amplitude_scale, Tone, Voice};

const RATE: u32 = 44100;

#[test]
fn amplitude_scale_is_a_million_per_sample() {
    assert_eq!(amplitude_scale(44100), 44_100_000_000);
    assert_eq!(amplitude_scale(1), 1_000_000);
    assert_eq!(amplitude_scale(u32::MAX), 4_294_967_295_000_000);
}

#[test]
fn idle_voice_is_silent() {
    let voice = Voice::idle();
    assert_eq!(voice.freq, 0);
    assert_eq!(voice.midi_note, 0);
    assert_eq!(voice.level, 0);
    assert_eq!(voice.time_attack, 0);
    assert_eq!(voice.time_decay, 0);
    assert!(!voice.active);
    assert!(!voice.released);
}

#[test]
fn idle_voice_does_not_tick() {
    let mut voice = Voice::idle();
    assert_eq!(voice.tick(RATE), None);
    assert_eq!(voice, Voice::idle());
}

#[test]
fn struck_voice_starts_at_six_tenths() {
    let voice = Voice::struck(69, 440, RATE);
    assert_eq!(voice.freq, 440);
    assert_eq!(voice.midi_note, 69);
    assert_eq!(voice.level, 26_460_000_000);
    assert_eq!(voice.level as f64 / amplitude_scale(RATE) as f64, 0.6);
    assert_eq!(voice.time_attack, 0);
    assert!(voice.active);
    assert!(!voice.released);
}

#[test]
fn first_tick_starts_the_ramp_at_zero() {
    let mut voice = Voice::struck(69, 440, RATE);
    let tone = voice.tick(RATE);
    assert_eq!(tone, Some(Tone { freq: 440, level: 0 }));
    assert_eq!(voice.level, 0);
    assert_eq!(voice.time_attack, 1);
    assert!(voice.active);
}

#[test]
fn attack_ramp_is_twenty_counts_over_the_rate() {
    let mut voice = Voice::struck(69, 440, RATE);
    for count in 0..2205i64 {
        let tone = voice.tick(RATE).unwrap();
        assert_eq!(tone.level, 20_000_000 * count);
    }
    // a twentieth of a second into the attack
    assert_eq!(voice.level, 44_080_000_000);
    let amplitude = voice.level as f64 / amplitude_scale(RATE) as f64;
    assert_eq!(amplitude, 20.0 * 2204.0 / 44100.0);
}

#[test]
fn attack_lasts_a_tenth_of_a_second() {
    let mut voice = Voice::struck(69, 440, RATE);
    for _ in 0..4410 {
        voice.tick(RATE);
    }
    assert_eq!(voice.time_attack, 4410);
    assert_eq!(voice.level, 88_180_000_000);
    voice.tick(RATE);
    assert_eq!(voice.time_attack, 4410);
    assert_eq!(voice.level, 88_180_000_000 - 44_100);
}

#[test]
fn amplitude_rises_through_the_attack() {
    let mut voice = Voice::struck(60, 261, RATE);
    let mut last = voice.tick(RATE).unwrap().level;
    for _ in 1..4410 {
        let level = voice.tick(RATE).unwrap().level;
        assert!(level > last);
        last = level;
    }
}

#[test]
fn amplitude_falls_after_the_attack_until_the_voice_goes_silent() {
    let mut voice = Voice::struck(60, 261, RATE);
    for _ in 0..4410 {
        voice.tick(RATE);
    }
    let mut last = voice.level;
    let mut ticks: u64 = 0;
    while voice.active {
        let level = voice.tick(RATE).unwrap().level;
        assert!(level < last);
        assert_eq!(voice.active, level > 0);
        last = level;
        ticks += 1;
    }
    assert!(last <= 0);
    // 88_180_000_000 / 44_100, rounded up
    assert_eq!(ticks, 1_999_547);
    assert_eq!(voice.tick(RATE), None);
    assert_eq!(voice.level, last);
}

#[test]
fn released_voice_decays_five_hundred_and_one_millionths_a_sample() {
    let mut voice = Voice::struck(60, 261, RATE);
    for _ in 0..4410 {
        voice.tick(RATE);
    }
    voice.release();
    assert!(voice.released);
    assert!(voice.active);
    assert_eq!(voice.level, 88_180_000_000);
    voice.tick(RATE);
    assert_eq!(voice.level, 88_180_000_000 - 501 * 44_100);
    let mut ticks: u64 = 1;
    while voice.active {
        voice.tick(RATE);
        ticks += 1;
    }
    // 88_180_000_000 / 22_094_100, rounded up
    assert_eq!(ticks, 3992);
    assert!(voice.level <= 0);
}

#[test]
fn release_during_the_attack_ends_the_ramp() {
    let mut voice = Voice::struck(60, 261, RATE);
    for _ in 0..100 {
        voice.tick(RATE);
    }
    assert_eq!(voice.level, 20_000_000 * 99);
    voice.release();
    voice.tick(RATE);
    assert_eq!(voice.time_attack, 100);
    assert_eq!(voice.level, 20_000_000 * 99 - 501 * 44_100);
}

#[test]
fn release_before_the_first_tick_decays_from_six_tenths() {
    let mut voice = Voice::struck(60, 261, RATE);
    voice.release();
    let tone = voice.tick(RATE).unwrap();
    assert_eq!(tone.level, 600_000 * 44_100 - 501 * 44_100);
    assert_eq!(voice.time_attack, 0);
}

#[test]
fn voice_that_reaches_zero_still_plays_that_sample() {
    let mut voice = Voice::struck(60, 261, RATE);
    voice.tick(RATE);
    voice.release();
    // level 0 before the tick, below zero after it
    let tone = voice.tick(RATE);
    assert_eq!(tone, Some(Tone { freq: 261, level: -501 * 44_100 }));
    assert!(!voice.active);
    assert_eq!(voice.tick(RATE), None);
}

#[test]
fn attack_window_at_a_rate_that_ten_does_not_divide() {
    // a tenth of 11025 is 1102.5: counts 0..=1102 belong to the attack
    let mut voice = Voice::struck(60, 261, 11025);
    for _ in 0..1103 {
        voice.tick(11025);
    }
    assert_eq!(voice.time_attack, 1103);
    assert_eq!(voice.level, 20_000_000 * 1102);
    voice.tick(11025);
    assert_eq!(voice.time_attack, 1103);
    assert_eq!(voice.level, 20_000_000 * 1102 - 11025);
}
