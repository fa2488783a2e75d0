//! Fixed-point layout of the resampler and the integer helpers built on it.

use vstd::prelude::*;

verus! {

/// Bits dropped from a sample position before phase and interpolation are read.
pub const PRE_SHIFT: u32 = 32;

/// Fractional bits of a sample position.
pub const TIME_BITS: u32 = 52;

/// Fractional bits of a sample position once `PRE_SHIFT` bits are dropped.
pub const FRAC_BITS: u32 = 20;

/// Bits of the kernel row selector.
pub const PHASE_BITS: u32 = 5;

/// Number of kernel phases per output sample.
pub const PHASE_COUNT: usize = 32;

/// Fractional bits of a buffer slot and of the integrator.
pub const DELTA_BITS: u32 = 15;

/// One unit of amplitude in a buffer slot.
pub const DELTA_UNIT: i64 = 32768;

/// The integrator feeds back `1 / 2^BASS_SHIFT` of each sample.
pub const BASS_SHIFT: u32 = 9;

/// Taps in each half of a kernel.
pub const HALF_WIDTH: usize = 8;

/// Slots kept beyond the capacity so that a kernel tail always has room.
pub const BUFFER_EXTRA: usize = 18;

/// Largest ratio between the two rates that the fixed-point layout carries.
pub const BLIP_MAX_RATIO: u64 = 0x10_0000;

/// One output sample as a fixed-point position.
pub const TIME_UNIT: u64 = 0x10_0000_0000_0000;

/// Smallest factor that `set_rates` installs.
pub const MIN_FACTOR: u128 = 0x1_0000_0000;

/// Largest factor that `set_rates` installs.
pub const MAX_FACTOR: u128 = 0x1_0000_0000_0000_0000_00;

/// Bound on the magnitude of the integrator: the leak of `1 / 2^BASS_SHIFT`
/// per sample balances the largest slot at this value.
pub const INTEGRATOR_LIMIT: i128 = 0x1_0000_0000_0000_0080_00;

/// The constants agree with each other: the units are the powers of two of
/// their bit counts, the bit counts add up, and the limits follow from
/// them.
pub proof fn lemma_constants_agree()
    ensures
        TIME_BITS == PRE_SHIFT + FRAC_BITS,
        FRAC_BITS == PHASE_BITS + DELTA_BITS,
        TIME_UNIT == 1u64 << 52,
        PHASE_COUNT == 1usize << 5,
        DELTA_UNIT == 1i64 << 15,
        BLIP_MAX_RATIO == 1u64 << 20,
        BUFFER_EXTRA == 2 * HALF_WIDTH + 2,
        MIN_FACTOR * BLIP_MAX_RATIO == TIME_UNIT,
        MAX_FACTOR == TIME_UNIT * BLIP_MAX_RATIO,
        INTEGRATOR_LIMIT == 512 * (0x8000_0000_0000_0000 + 64),
        BASS_SHIFT <= DELTA_BITS,
{
    assert(0x10_0000_0000_0000u64 == 1u64 << 52) by (bit_vector);
    assert(32usize == 1usize << 5) by (bit_vector);
    assert(32768i64 == 1i64 << 15) by (bit_vector);
    assert(0x10_0000u64 == 1u64 << 20) by (bit_vector);
}

/// The value of `x` as a 64-bit two's complement number.
pub open spec fn wrap_slot(x: int) -> int {
    let m = x % 0x1_0000_0000_0000_0000;
    if m >= 0x8000_0000_0000_0000 {
        m - 0x1_0000_0000_0000_0000
    } else {
        m
    }
}

/// Saturation to the range of a 16-bit sample.
pub open spec fn clamp_sample(s: int) -> int {
    if s < -32768 {
        -32768
    } else if s > 32767 {
        32767
    } else {
        s
    }
}

/// One step of the leaky integrator: add the slot, then take back
/// `2^(DELTA_BITS - BASS_SHIFT)` times the sample that was just emitted.
pub open spec fn integrate_step(acc: int, slot: int) -> int {
    acc + slot - (acc / 32768) * 64
}

/// Wrapping is the identity on values that fit in a slot.
pub proof fn lemma_wrap_slot_in_range(x: int)
    requires
        i64::MIN <= x <= i64::MAX,
    ensures
        wrap_slot(x) == x,
{
}

/// A wrapped value fits in a slot and differs from the exact one by a
/// multiple of `2^64`.
pub proof fn lemma_wrap_slot_range(x: int)
    ensures
        i64::MIN <= wrap_slot(x) <= i64::MAX,
        (wrap_slot(x) - x) % 0x1_0000_0000_0000_0000 == 0,
{
}

/// Wrapping an intermediate sum does not change the wrapped total.
pub proof fn lemma_wrap_slot_absorbs(x: int, y: int)
    ensures
        wrap_slot(wrap_slot(x) + y) == wrap_slot(x + y),
{
}

/// The integrator never leaves `[-INTEGRATOR_LIMIT, INTEGRATOR_LIMIT]` while
/// the slots it consumes fit in 64 bits.
pub proof fn lemma_integrate_step_bounded(acc: int, slot: int)
    requires
        -INTEGRATOR_LIMIT <= acc <= INTEGRATOR_LIMIT,
        i64::MIN <= slot <= i64::MAX,
    ensures
        -INTEGRATOR_LIMIT <= integrate_step(acc, slot) <= INTEGRATOR_LIMIT,
{
}

} // verus!
