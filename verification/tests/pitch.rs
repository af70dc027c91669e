use darkhill::pitch::frequency;

#[test]
fn concert_pitch_is_440() {
    assert_eq!(frequency(69), 440);
}

#[test]
fn note_nine_is_cut_off_to_thirteen() {
    // (440 / 32) * 2^0 = 13.75
    assert_eq!(frequency(9), 13);
}

#[test]
fn lowest_a_of_the_piano_is_cut_off_to_27() {
    // (440 / 32) * 2^1 = 27.5
    assert_eq!(frequency(21), 27);
}

#[test]
fn octaves_of_a_double() {
    assert_eq!(frequency(33), 55);
    assert_eq!(frequency(45), 110);
    assert_eq!(frequency(57), 220);
    assert_eq!(frequency(81), 880);
    assert_eq!(frequency(93), 1760);
    assert_eq!(frequency(105), 3520);
    assert_eq!(frequency(117), 7040);
}

#[test]
fn known_frequencies() {
    assert_eq!(frequency(0), 8);
    assert_eq!(frequency(60), 261);
    assert_eq!(frequency(61), 277);
    assert_eq!(frequency(70), 466);
    assert_eq!(frequency(127), 12543);
    assert_eq!(frequency(128), 13289);
    assert_eq!(frequency(255), 20390018);
}

#[test]
fn frequency_is_the_floor_of_the_formula() {
    for note in 0u8..=255 {
        let exact = (440.0f64 / 32.0) * 2.0f64.powf((note as f64 - 9.0) / 12.0);
        assert_eq!(frequency(note) as f64, exact.floor(), "note {}", note);
    }
}

#[test]
fn frequency_agrees_with_single_precision_on_midi_notes() {
    for note in 0u8..=127 {
        let freq: f32 = (440. / 32.) * 2f32.powf((note as f32 - 9.0) / 12.);
        assert_eq!(frequency(note), freq as i32 as u32, "note {}", note);
    }
}

#[test]
fn frequency_never_falls_with_the_note() {
    for note in 0u8..255 {
        assert!(frequency(note) <= frequency(note + 1));
    }
}
