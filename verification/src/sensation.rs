//! The latest requested sensation values per side, and the integer state of the
//! pain noise generator.
//!
//! Values are 32-bit floats held as IEEE-754 bit patterns; the router only ever
//! stores values in the unit interval.
use vstd::prelude::*;

verus! {

/// The requested intensities at one point, as float bit patterns.
#[derive(Debug, Clone, Copy, PartialEq, Eq)]
pub struct SensationPoint {
    pub force: u32,
    pub vibration: u32,
    pub pain: u32,
}

/// The requested intensities on both sides.
#[derive(Debug, Clone, Copy, PartialEq, Eq)]
pub struct SensationState {
    pub left: SensationPoint,
    pub right: SensationPoint,
}

impl SensationState {
    /// Both sides at rest.
    pub open spec fn default_spec() -> SensationState {
        SensationState {
            left: SensationPoint { force: 0, vibration: 0, pain: 0 },
            right: SensationPoint { force: 0, vibration: 0, pain: 0 },
        }
    }
}

impl Default for SensationPoint {
    /// All three intensities at `0.0`.
    fn default() -> (p: Self)
        ensures
            p.force == 0 && p.vibration == 0 && p.pain == 0,
    {
        SensationPoint { force: 0, vibration: 0, pain: 0 }
    }
}

impl Default for SensationState {
    /// Both sides at rest.
    fn default() -> (s: Self)
        ensures
            s == SensationState::default_spec(),
    {
        SensationState {
            left: SensationPoint { force: 0, vibration: 0, pain: 0 },
            right: SensationPoint { force: 0, vibration: 0, pain: 0 },
        }
    }
}

/// The first state of the pain noise generator.
pub const NOISE_SEED: u32 = 0x6d2b_79f5;

/// One xorshift step (shifts 13, 17, 5) of the pain noise generator.
pub open spec fn xorshift32_spec(x: u32) -> u32 {
    let a = x ^ (x << 13u32);
    let b = a ^ (a >> 17u32);
    b ^ (b << 5u32)
}

/// The next state of the pain noise generator.
pub fn xorshift32_next(state: u32) -> (next: u32)
    ensures
        next == xorshift32_spec(state),
{
    let mut value = state;
    value = value ^ (value << 13u32);
    value = value ^ (value >> 17u32);
    value = value ^ (value << 5u32);
    value
}

/// A nonzero state never steps to zero, so the generator never gets stuck.
pub proof fn lemma_xorshift32_nonzero(x: u32)
    requires
        x != 0,
    ensures
        xorshift32_spec(x) != 0,
{
    assert(x != 0 ==> {
        let a = x ^ (x << 13u32);
        let b = a ^ (a >> 17u32);
        b ^ (b << 5u32) != 0
    }) by (bit_vector);
}

} // verus!
