use klatt_rs::dsp::Xorshift32;
use klatt_rs::SAMPLE_RATE;

#[test]
fn sample_rate_is_22050() {
    assert_eq!(SAMPLE_RATE, 22050);
}

#[test]
fn xorshift_sequence_from_one() {
    let mut rng = Xorshift32::new(1);
    assert_eq!(rng.next_i32(), 270369);
    assert_eq!(rng.next_i32(), 67634689);
    assert_eq!(rng.next_i32(), -1647531835);
}

#[test]
fn xorshift_zero_seed_is_replaced_by_one() {
    let mut a = Xorshift32::new(0);
    let mut b = Xorshift32::new(1);
    for _ in 0..100 {
        assert_eq!(a.next_i32(), b.next_i32());
    }
}

#[test]
fn xorshift_synth_seed_sequence() {
    let mut rng = Xorshift32::new(0x12345678);
    assert_eq!(rng.next_i32(), -2020058459);
    assert_eq!(rng.next_i32(), 358294691);
    assert_eq!(rng.next_i32(), 1210119364);
}

#[test]
fn xorshift_never_returns_zero() {
    let mut rng = Xorshift32::new(7);
    for _ in 0..100_000 {
        assert_ne!(rng.next_i32(), 0);
    }
}
