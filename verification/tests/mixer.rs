use darkhill::midi::NoteEvent;
use darkhill::mixer::Mixer;
use darkhill::reverb::COMBS;
use darkhill::voice::{amplitude_scale, Tone, Voice};

fn hard_saw(phase: f32, amplitude: f32) -> f32 {
    0.5 * amplitude * (phase % 1.0)
}

fn produce_sample(mixer: &mut Mixer<f32>, events: &Vec<NoteEvent>) -> f32 {
    let tones = mixer.begin_sample(events);
    let sample_rate = mixer.sample_rate() as f32;
    let sample_clock = mixer.clock() as f32;
    let scale = amplitude_scale(mixer.sample_rate()) as f32;
    let mut output: f32 = 0.0;
    for (_, tone) in tones.iter() {
        let amplitude = tone.level as f32 / scale;
        let phase: f32 = sample_clock / sample_rate * (tone.freq as f32 * 2.0 * 3.141592);
        output = output + hard_saw(phase, amplitude) * 0.1;
    }
    output = output + 0.04 * mixer.echo();
    let mut x: f32 = 0.05 * output;
    for n in 0..COMBS {
        x = x + 0.05 * mixer.tap(n);
    }
    mixer.end_sample(output, x);
    output * 0.9 + 4.0 * x
}

#[test]
fn fresh_mixer_is_silent() {
    let mut mixer = Mixer::new(44100, 0.0f32);
    assert_eq!(mixer.sample_rate(), 44100);
    assert_eq!(mixer.clock(), 0);
    assert_eq!(mixer.active_voices(), 0);
    let none = Vec::new();
    for _ in 0..1000 {
        assert_eq!(produce_sample(&mut mixer, &none), 0.0);
    }
}

#[test]
fn clock_wraps_at_the_sample_rate() {
    let mut mixer = Mixer::new(4, 0u8);
    let mut seen = Vec::new();
    for _ in 0..9 {
        mixer.advance_clock();
        seen.push(mixer.clock());
    }
    assert_eq!(seen, vec![1, 2, 3, 0, 1, 2, 3, 0, 1]);
}

#[test]
fn clock_of_a_rate_of_one_stays_at_zero() {
    let mut mixer = Mixer::new(1, 0u8);
    mixer.advance_clock();
    assert_eq!(mixer.clock(), 0);
    mixer.advance_clock();
    assert_eq!(mixer.clock(), 0);
}

#[test]
fn note_on_strikes_a_voice_at_the_frequency_of_its_note() {
    let mut mixer = Mixer::new(44100, 0.0f32);
    mixer.handle_event(NoteEvent::new(0x90, 69, 100));
    assert_eq!(mixer.voice(0), Voice::struck(69, 440, 44100));
    assert_eq!(mixer.active_voices(), 1);
    mixer.handle_event(NoteEvent::new(0x95, 60, 1));
    assert_eq!(mixer.voice(1), Voice::struck(60, 261, 44100));
    assert_eq!(mixer.active_voices(), 2);
}

#[test]
fn note_off_releases_and_other_events_do_nothing() {
    let mut mixer = Mixer::new(44100, 0.0f32);
    mixer.handle_event(NoteEvent::new(0x90, 69, 100));
    mixer.handle_event(NoteEvent::new(0xb0, 69, 0));
    assert_eq!(mixer.voice(0), Voice::struck(69, 440, 44100));
    mixer.handle_event(NoteEvent::new(0x8a, 69, 0));
    assert!(mixer.voice(0).released);
    assert!(mixer.voice(0).active);
    mixer.handle_event(NoteEvent::new(0x90, 72, 100));
    assert_eq!(mixer.voice(0), Voice::struck(72, 523, 44100));
    assert_eq!(mixer.voice(1), Voice::idle());
}

#[test]
fn events_are_taken_in_their_order() {
    let mut mixer = Mixer::new(44100, 0.0f32);
    let events = vec![
        NoteEvent::new(0x90, 60, 100),
        NoteEvent::new(0x80, 60, 0),
        NoteEvent::new(0x90, 64, 100),
        NoteEvent::new(0x90, 67, 100),
    ];
    let tones = mixer.begin_sample(&events);
    // the second note took the slot that the first gave up
    assert_eq!(
        tones,
        vec![(0, Tone { freq: 329, level: 0 }), (1, Tone { freq: 391, level: 0 })]
    );
    assert_eq!(mixer.clock(), 1);
    assert_eq!(mixer.active_voices(), 2);
}

#[test]
fn begin_sample_is_clock_then_events_then_voices() {
    let events = vec![NoteEvent::new(0x90, 60, 100), NoteEvent::new(0x90, 64, 100)];
    let mut whole = Mixer::new(48000, 0i16);
    let mut parts = Mixer::new(48000, 0i16);
    for _ in 0..3 {
        let tones = whole.begin_sample(&events);
        parts.advance_clock();
        for event in events.iter() {
            parts.handle_event(*event);
        }
        let mut listed = Vec::new();
        for slot in 0..10 {
            if let Some(tone) = parts.tick_voice(slot) {
                listed.push((slot, tone));
            }
        }
        assert_eq!(tones, listed);
        assert_eq!(whole.clock(), parts.clock());
        for slot in 0..10 {
            assert_eq!(whole.voice(slot), parts.voice(slot));
        }
    }
}

#[test]
fn end_sample_stores_the_mix_and_the_diffused_value() {
    let mut mixer = Mixer::new(44100, 0u32);
    mixer.end_sample(7, 9);
    for _ in 1..1597 {
        assert_eq!(mixer.tap(0), 0);
        assert_eq!(mixer.echo(), 0);
        mixer.end_sample(0, 0);
    }
    assert_eq!(mixer.tap(0), 9);
    assert_eq!(mixer.tap(1), 0);
    for _ in 1597..2083 {
        mixer.end_sample(0, 0);
    }
    assert_eq!(mixer.tap(1), 9);
    for _ in 2083..23009 {
        assert_eq!(mixer.echo(), 0);
        mixer.end_sample(0, 0);
    }
    assert_eq!(mixer.echo(), 7);
}

#[test]
fn a4_a_twentieth_of_a_second_into_its_attack() {
    let mut mixer = Mixer::new(44100, 0.0f32);
    let none = Vec::new();
    let mut output = produce_sample(&mut mixer, &vec![NoteEvent::new(0x90, 69, 100)]);
    for _ in 1..2205 {
        output = produce_sample(&mut mixer, &none);
    }
    assert_eq!(mixer.clock(), 2205);
    assert!(output != 0.0);
    assert!(output.is_finite());
    assert_eq!(mixer.active_voices(), 1);
    let voice = mixer.voice(0);
    assert_eq!(voice.midi_note, 69);
    assert_eq!(voice.freq, 440);
    assert_eq!(voice.time_attack, 2205);
    assert_eq!(voice.level, 20_000_000 * 2204);
}

#[test]
fn note_alone_before_any_buffer_returns() {
    // until the shortest comb buffer has filled, echo and taps are silent
    let mut mixer = Mixer::new(44100, 0.0f32);
    let none = Vec::new();
    let mut output = produce_sample(&mut mixer, &vec![NoteEvent::new(0x90, 69, 100)]);
    assert_eq!(output, 0.0);
    for _ in 1..1000 {
        output = produce_sample(&mut mixer, &none);
    }
    let amplitude = (20_000_000i64 * 999) as f32 / 44_100_000_000u64 as f32;
    let phase: f32 = 1000.0f32 / 44100.0 * (440.0 * 2.0 * 3.141592);
    let dry = 0.0 + hard_saw(phase, amplitude) * 0.1 + 0.04 * 0.0;
    let mut x: f32 = 0.05 * dry;
    for _ in 0..13 {
        x = x + 0.05 * 0.0;
    }
    assert_eq!(output, dry * 0.9 + 4.0 * x);
    assert!(output > 0.0 && output < 1.0);
}

#[test]
fn two_mixers_with_the_same_events_agree_bit_for_bit() {
    let mut first = Mixer::new(44100, 0.0f32);
    let mut second = Mixer::new(44100, 0.0f32);
    let none = Vec::new();
    for n in 0..30000u32 {
        let events = if n % 5000 == 0 {
            vec![NoteEvent::new(0x90, 40 + (n / 500) as u8, 100)]
        } else if n % 5000 == 2500 {
            vec![NoteEvent::new(0x80, 40 + (n / 5000 * 10) as u8, 0)]
        } else {
            none.clone()
        };
        let a = produce_sample(&mut first, &events);
        let b = produce_sample(&mut second, &events);
        assert_eq!(a.to_bits(), b.to_bits());
    }
}
