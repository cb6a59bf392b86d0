use pc_audio_mixer::types::PotentiometerData;
use pc_audio_mixer::volume::{percentage, quantize, FULL_SCALE};

#[test]
fn quantize_keeps_even_values() {
    assert_eq!(quantize(0), 0);
    assert_eq!(quantize(50), 50);
    assert_eq!(quantize(100), 100);
}

#[test]
fn quantize_rounds_odd_values_away_from_zero() {
    assert_eq!(quantize(1), 2);
    assert_eq!(quantize(51), 52);
    assert_eq!(quantize(99), 100);
}

#[test]
fn quantize_is_idempotent_and_even() {
    let mut x: u32 = 0;
    while x <= 200 {
        let q = quantize(x);
        assert_eq!(quantize(q), q);
        assert_eq!(q % 2, 0);
        x += 1;
    }
}

#[test]
fn percentage_round_trip_at_scale_ends() {
    assert_eq!(percentage(0), 0);
    assert_eq!(percentage(FULL_SCALE), 100);
}

#[test]
fn percentage_midpoint() {
    assert_eq!(percentage(2048), 50);
}

#[test]
fn percentage_is_even_and_bounded() {
    let mut raw: u16 = 0;
    while raw <= FULL_SCALE {
        let p = percentage(raw);
        assert_eq!(p % 2, 0);
        assert!(p <= 100);
        raw += 1;
    }
}

#[test]
fn to_percentages_normalizes_each_channel() {
    let d = PotentiometerData {
        pot1: 0,
        pot2: 2048,
        pot3: 4095,
    };
    assert_eq!(d.to_percentages(), (0, 50, 100));
}
