use tempest_lcd::pitch::{pitch_micro_hz, CONCERT_PITCH};

#[test]
fn concert_pitch_is_a4() {
    assert_eq!(CONCERT_PITCH, 440_000_000);
    assert_eq!(pitch_micro_hz(4, 0), 440_000_000);
}

#[test]
fn an_octave_up_doubles_an_a() {
    for octave in 0u8..=9 {
        assert_eq!(pitch_micro_hz(octave, 0), 27_500_000u64 << octave);
    }
}

#[test]
fn the_ends_of_the_range() {
    // C0 and B#9
    assert_eq!(pitch_micro_hz(0, -9), 16_351_597);
    assert_eq!(pitch_micro_hz(9, 3), 16_744_036_179);
}

#[test]
fn every_key_is_the_floor_of_its_frequency() {
    for octave in 0u8..=9 {
        for semitone in -9i8..=3 {
            let key = 12 * octave as i32 + semitone as i32;
            let exact = 440_000_000.0 * 2f64.powf((key - 48) as f64 / 12.0);
            let got = pitch_micro_hz(octave, semitone) as f64;
            assert!(got <= exact + 0.01 && exact < got + 1.01, "key {}: {} vs {}", key, got, exact);
        }
    }
}

#[test]
fn b_sharp_is_the_c_of_the_next_octave() {
    for octave in 0u8..9 {
        assert_eq!(pitch_micro_hz(octave, 3), pitch_micro_hz(octave + 1, -9));
    }
}
