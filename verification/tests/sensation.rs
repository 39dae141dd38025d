use joycon_rumble_bridge::sensation::{xorshift32_next, SensationPoint, SensationState, NOISE_SEED};

#[test]
fn noise_generator_steps_like_xorshift32() {
    assert_eq!(xorshift32_next(1), 0x0004_2021);
    let first = xorshift32_next(NOISE_SEED);
    assert_eq!(first, 0x40ae_c71f);
    assert_eq!(xorshift32_next(first), 0x91e0_0c19);
    assert_eq!(xorshift32_next(0), 0);
}

#[test]
fn sensation_state_starts_at_rest() {
    let state = SensationState::default();
    assert_eq!(state.left, SensationPoint::default());
    assert_eq!(state.right.pain, 0);
    assert_eq!(f32::from_bits(state.left.force), 0.0);
}
