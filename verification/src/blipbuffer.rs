//! The executable buffer.

use crate::fixed::{clamp_sample, wrap_slot};
use crate::fixed::{lemma_integrate_step_bounded, lemma_wrap_slot_in_range};
use crate::fixed::{BASS_SHIFT, BUFFER_EXTRA, DELTA_BITS, FRAC_BITS, HALF_WIDTH, MIN_FACTOR};
use crate::fixed::{PHASE_BITS, PHASE_COUNT, PRE_SHIFT, TIME_BITS, TIME_UNIT};
use crate::kernel::kernel_tap;
use crate::model::{integrate, interpolation, rates_valid, splat_tap};
use crate::model::{lemma_interpolation_bounded, lemma_position_bounded};
use crate::model::{lemma_rate_factor_bounded, lemma_tap_product_bounded};
use crate::model::BlipModel;
use vstd::prelude::*;

verus! {

/// Why an operation on a buffer was refused. A refused operation leaves the
/// buffer as it was.
#[derive(Clone, Copy, Debug, PartialEq, Eq, Structural)]
pub enum BlipError {
    /// `set_rates` got a zero rate, or rates further apart than
    /// `BLIP_MAX_RATIO`.
    Configuration,
    /// A step or a frame reaches beyond the end of the buffer.
    Capacity,
    /// A value lies outside the range of the argument or register that it
    /// is meant for.
    Argument,
}

/// A buffer that resamples amplitude steps on a fast clock into 16-bit
/// samples at the output rate.
///
/// A producer adds steps with `add_delta`, closes a frame with `end_frame`
/// and reads what the frame completed with `read_samples`. The buffer
/// takes these calls in any order and refuses only what has no room in it:
/// the steps of a frame may come in any order of time, may reach past the
/// end of the frame, and may follow a frame that is not read yet.
pub struct BlipBuffer {
    factor: u128,
    offset: u64,
    samples_available: u32,
    integrator: i128,
    buffer: Vec<i64>,
}

impl View for BlipBuffer {
    type V = BlipModel;

    closed spec fn view(&self) -> BlipModel {
        BlipModel {
            factor: self.factor as nat,
            offset: self.offset as nat,
            avail: self.samples_available as nat,
            integrator: self.integrator as int,
            slots: self.buffer@.map_values(|x: i64| x as int),
        }
    }
}

impl BlipBuffer {
    /// The invariant that every operation keeps.
    pub open spec fn wf(&self) -> bool {
        self@.wf()
    }

    /// A silent buffer with room for `capacity` pending samples and
    /// `BUFFER_EXTRA` slots of kernel tail behind them.
    pub fn new(capacity: u32) -> (buffer: BlipBuffer)
        requires
            capacity + BUFFER_EXTRA <= usize::MAX,
        ensures
            buffer.wf(),
            buffer@ == BlipModel::fresh(capacity as nat),
    {
        let slots: Vec<i64> = vec![0i64; capacity as usize + BUFFER_EXTRA];
        let buffer = BlipBuffer {
            factor: MIN_FACTOR,
            offset: 0,
            samples_available: 0,
            integrator: 0,
            buffer: slots,
        };
        assert(buffer@.slots =~= BlipModel::fresh(capacity as nat).slots);
        buffer
    }

    /// Installs the factor for a source clock of `clock_rate` ticks and an
    /// output of `sample_rate` samples per second.
    pub fn set_rates(&mut self, clock_rate: u64, sample_rate: u64) -> (result: Result<
        (),
        BlipError,
    >)
        requires
            old(self).wf(),
        ensures
            final(self).wf(),
            final(self)@.avail == old(self)@.avail,
            final(self)@.offset == old(self)@.offset,
            final(self)@.integrator == old(self)@.integrator,
            final(self)@.slots == old(self)@.slots,
            rates_valid(clock_rate as nat, sample_rate as nat)
                ==> result == Ok::<(), BlipError>(())
                && final(self)@ == old(self)@.set_rates(clock_rate as nat, sample_rate as nat),
            !rates_valid(clock_rate as nat, sample_rate as nat)
                ==> result == Err::<(), BlipError>(BlipError::Configuration)
                && final(self)@ == old(self)@,
    {
        if clock_rate == 0 {
            return Err(BlipError::Configuration);
        }
        let clock: u128 = clock_rate as u128;
        let sample: u128 = sample_rate as u128;
        if sample > 0x10_0000 * clock || clock > 0x10_0000 * sample {
            return Err(BlipError::Configuration);
        }
        let scaled: u128 = 0x10_0000_0000_0000 * sample;
        let factor: u128 = scaled / clock;
        proof {
            lemma_rate_factor_bounded(clock_rate as nat, sample_rate as nat);
        }
        self.factor = factor;
        Ok(())
    }

    /// Adds a band-limited step of height `delta` at clock tick `time` of the
    /// current frame.
    pub fn add_delta(&mut self, time: u32, delta: i32) -> (result: Result<(), BlipError>)
        requires
            old(self).wf(),
        ensures
            final(self).wf(),
            final(self)@.avail == old(self)@.avail,
            final(self)@.offset == old(self)@.offset,
            final(self)@.factor == old(self)@.factor,
            final(self)@.integrator == old(self)@.integrator,
            final(self)@.slots.len() == old(self)@.slots.len(),
            old(self)@.delta_fits(time as nat)
                ==> result == Ok::<(), BlipError>(())
                && final(self)@ == old(self)@.add_delta(time as nat, delta as int),
            !old(self)@.delta_fits(time as nat)
                ==> result == Err::<(), BlipError>(BlipError::Capacity)
                && final(self)@ == old(self)@,
    {
        proof {
            lemma_position_bounded(self@, time as nat);
        }
        let pos: u128 = time as u128 * self.factor + self.offset as u128;
        let fixed: u128 = pos >> PRE_SHIFT;
        let row: u128 = (fixed >> (FRAC_BITS - PHASE_BITS)) & 31;
        let weight: u128 = fixed & 0x7fff;
        let index: u128 = fixed >> FRAC_BITS;
        assert(((pos >> 32) >> 15) & 31 == (pos / 0x8000_0000_0000) % 32) by (bit_vector);
        assert((pos >> 32) & 0x7fff == (pos / 0x1_0000_0000) % 32768) by (bit_vector);
        assert((pos >> 32) >> 20 == pos / 0x10_0000_0000_0000) by (bit_vector);
        let phase: usize = row as usize;
        let interp: i64 = weight as i64;
        let room: usize = self.buffer.len() - 2 * HALF_WIDTH - self.samples_available as usize;
        if index > room as u128 {
            return Err(BlipError::Capacity);
        }
        let start: usize = self.samples_available as usize + index as usize;
        proof {
            lemma_interpolation_bounded(delta as int, interp as int);
        }
        let product: i64 = delta as i64 * interp;
        let late: i64 = product >> DELTA_BITS;
        assert(product >> 15 == product / 32768) by (bit_vector);
        let early: i64 = delta as i64 - late;
        let ghost before = self.buffer@;
        let mut i: usize = 0;
        while i < HALF_WIDTH
            invariant
                i <= 8,
                phase < 32,
                0 <= interp < 32768,
                self.factor == old(self).factor,
                self.offset == old(self).offset,
                self.samples_available == old(self).samples_available,
                self.integrator == old(self).integrator,
                start + 16 <= self.buffer.len(),
                self.buffer.len() == before.len(),
                (early as int, late as int) == interpolation(delta as int, interp as int),
                -0x8000_0000 <= early <= 0x8000_0000,
                -0x8000_0000 <= late <= 0x8000_0000,
                forall|j: int|
                    0 <= j < before.len() ==> #[trigger] self.buffer@[j] == if start <= j < start
                        + i {
                        wrap_slot(
                            before[j] + splat_tap(
                                phase as int,
                                interp as int,
                                delta as int,
                                j - start,
                            ),
                        )
                    } else {
                        before[j] as int
                    },
            decreases 8 - i,
        {
            let near: i64 = kernel_tap(phase, i) as i64;
            let far: i64 = kernel_tap(phase + 1, i) as i64;
            proof {
                lemma_tap_product_bounded(near as int, early as int);
                lemma_tap_product_bounded(far as int, late as int);
            }
            let tap: i64 = near * early + far * late;
            let slot: i64 = self.buffer[start + i];
            self.buffer.set(start + i, slot.wrapping_add(tap));
            i = i + 1;
        }
        let mut i: usize = 0;
        while i < HALF_WIDTH
            invariant
                i <= 8,
                phase < 32,
                0 <= interp < 32768,
                self.factor == old(self).factor,
                self.offset == old(self).offset,
                self.samples_available == old(self).samples_available,
                self.integrator == old(self).integrator,
                start + 16 <= self.buffer.len(),
                self.buffer.len() == before.len(),
                (early as int, late as int) == interpolation(delta as int, interp as int),
                -0x8000_0000 <= early <= 0x8000_0000,
                -0x8000_0000 <= late <= 0x8000_0000,
                forall|j: int|
                    0 <= j < before.len() ==> #[trigger] self.buffer@[j] == if start <= j < start
                        + 8 + i {
                        wrap_slot(
                            before[j] + splat_tap(
                                phase as int,
                                interp as int,
                                delta as int,
                                j - start,
                            ),
                        )
                    } else {
                        before[j] as int
                    },
            decreases 8 - i,
        {
            let near: i64 = kernel_tap(PHASE_COUNT - phase, HALF_WIDTH - 1 - i) as i64;
            let far: i64 = kernel_tap(PHASE_COUNT - 1 - phase, HALF_WIDTH - 1 - i) as i64;
            proof {
                lemma_tap_product_bounded(near as int, early as int);
                lemma_tap_product_bounded(far as int, late as int);
            }
            let tap: i64 = near * early + far * late;
            let slot: i64 = self.buffer[start + HALF_WIDTH + i];
            self.buffer.set(start + HALF_WIDTH + i, slot.wrapping_add(tap));
            i = i + 1;
        }
        proof {
            let target = old(self)@.add_delta(time as nat, delta as int);
            assert forall|j: int| 0 <= j < before.len() implies #[trigger] self@.slots[j]
                == target.slots[j] by {
                lemma_wrap_slot_in_range(before[j] as int);
            }
            assert(self@.slots =~= target.slots);
        }
        Ok(())
    }

    /// Closes a frame of `clocks_in_frame` ticks: the samples that it
    /// completes become readable, and the next frame starts where it ends.
    pub fn end_frame(&mut self, clocks_in_frame: u32) -> (result: Result<(), BlipError>)
        requires
            old(self).wf(),
        ensures
            final(self).wf(),
            final(self)@.offset < TIME_UNIT,
            old(self)@.avail <= final(self)@.avail <= final(self)@.capacity(),
            final(self)@.factor == old(self)@.factor,
            final(self)@.integrator == old(self)@.integrator,
            final(self)@.slots == old(self)@.slots,
            old(self)@.frame_fits(clocks_in_frame as nat)
                ==> result == Ok::<(), BlipError>(())
                && final(self)@ == old(self)@.end_frame(clocks_in_frame as nat),
            !old(self)@.frame_fits(clocks_in_frame as nat)
                ==> result == Err::<(), BlipError>(BlipError::Capacity)
                && final(self)@ == old(self)@,
    {
        proof {
            lemma_position_bounded(self@, clocks_in_frame as nat);
        }
        let off: u128 = clocks_in_frame as u128 * self.factor + self.offset as u128;
        let samples: u128 = off >> TIME_BITS;
        let rest: u128 = off & (TIME_UNIT as u128 - 1);
        assert(off >> 52 == off / 0x10_0000_0000_0000) by (bit_vector);
        assert(off & 0xF_FFFF_FFFF_FFFF == off % 0x10_0000_0000_0000) by (bit_vector);
        let room: usize = self.buffer.len() - BUFFER_EXTRA - self.samples_available as usize;
        if samples > room as u128 {
            return Err(BlipError::Capacity);
        }
        self.samples_available = self.samples_available + samples as u32;
        self.offset = rest as u64;
        Ok(())
    }

    /// Reads up to `count` samples: integrates them out of the front of the
    /// buffer, saturates each to 16 bits, and moves what is left of the
    /// buffer forward. Returns how many were read, and a vector of that
    /// length. With `stereo` the samples stand at its even places, the odd
    /// ones are zero, and samples without a place in it are dropped.
    pub fn read_samples(&mut self, count: u32, stereo: bool) -> (result: (u32, Vec<i16>))
        requires
            old(self).wf(),
        ensures
            final(self).wf(),
            result.0 == old(self)@.readable(count as nat),
            result.1.len() == result.0,
            result.1@.map_values(|s: i16| s as int) == old(self)@.output(count as nat, stereo),
            final(self)@ == old(self)@.read_samples(count as nat),
            final(self)@.avail + result.0 == old(self)@.avail,
            final(self)@.factor == old(self)@.factor,
            final(self)@.offset == old(self)@.offset,
            final(self)@.slots.len() == old(self)@.slots.len(),
            forall|i: int|
                0 <= i < old(self)@.slots.len() - result.0
                    ==> final(self)@.slots[i] == old(self)@.slots[i + result.0],
            forall|i: int|
                old(self)@.slots.len() - result.0 <= i < old(self)@.slots.len()
                    ==> final(self)@.slots[i] == 0,
    {
        let actual: u32 = if count > self.samples_available {
            self.samples_available
        } else {
            count
        };
        let n: usize = actual as usize;
        let len: usize = self.buffer.len();
        let ghost before = self@;
        let mut samples: Vec<i16> = vec![0i16; n];
        let mut sum: i128 = self.integrator;
        let mut i: usize = 0;
        while i < n
            invariant
                i <= n,
                n + 18 <= len,
                len == self.buffer.len(),
                samples.len() == n,
                *self == *old(self),
                before == old(self)@,
                before.wf(),
                sum == integrate(before.integrator, before.slots, i as nat),
                -0x1_0000_0000_0000_0080_00 <= sum <= 0x1_0000_0000_0000_0080_00,
                forall|j: int|
                    0 <= j < n ==> #[trigger] samples@[j] as int == if !stereo {
                        if j < i {
                            before.sample(j as nat)
                        } else {
                            0
                        }
                    } else if j % 2 == 0 && j / 2 < i {
                        before.sample((j / 2) as nat)
                    } else {
                        0
                    },
            decreases n - i,
        {
            let s: i128 = sum >> DELTA_BITS;
            assert(sum >> 15 == sum / 32768) by (bit_vector);
            let back: i128 = s << (DELTA_BITS - BASS_SHIFT);
            assert(s << 6 == s * 64) by (bit_vector)
                requires
                    -0x1_0000_0000_0000_0000 <= s <= 0x1_0000_0000_0000_0000,
            ;
            let slot: i64 = self.buffer[i];
            proof {
                lemma_integrate_step_bounded(sum as int, slot as int);
            }
            let out: i16 = clamp_to_sample(s);
            if !stereo {
                samples.set(i, out);
            } else if i < n - i {
                samples.set(2 * i, out);
            }
            sum = sum + slot as i128 - back;
            i = i + 1;
        }
        self.integrator = sum;
        let mut j: usize = 0;
        while j < len - n
            invariant
                j <= len - n,
                n <= len,
                len == self.buffer.len(),
                self.factor == old(self).factor,
                self.offset == old(self).offset,
                self.samples_available == old(self).samples_available,
                self.integrator == sum,
                before == old(self)@,
                forall|k: int|
                    0 <= k < len ==> #[trigger] self.buffer@[k] as int == if k < j {
                        before.slots[k + n]
                    } else {
                        before.slots[k]
                    },
            decreases len - n - j,
        {
            let moved: i64 = self.buffer[j + n];
            self.buffer.set(j, moved);
            j = j + 1;
        }
        while j < len
            invariant
                len - n <= j <= len,
                n <= len,
                len == self.buffer.len(),
                self.factor == old(self).factor,
                self.offset == old(self).offset,
                self.samples_available == old(self).samples_available,
                self.integrator == sum,
                before == old(self)@,
                forall|k: int|
                    0 <= k < len ==> #[trigger] self.buffer@[k] as int == if k < len - n {
                        before.slots[k + n]
                    } else if k < j {
                        0
                    } else {
                        before.slots[k]
                    },
            decreases len - j,
        {
            self.buffer.set(j, 0);
            j = j + 1;
        }
        self.samples_available = self.samples_available - actual;
        proof {
            let target = before.read_samples(count as nat);
            assert(self@.slots =~= target.slots);
            assert(samples@.map_values(|s: i16| s as int) =~= before.output(count as nat, stereo));
        }
        (actual, samples)
    }

    /// Samples that are ready to be read.
    pub fn samples_available(&self) -> (count: u32)
        requires
            self.wf(),
        ensures
            count == self@.avail,
            count <= self@.capacity(),
    {
        self.samples_available
    }
}

/// Saturates a sample to 16 bits.
pub fn clamp_to_sample(s: i128) -> (out: i16)
    ensures
        out == clamp_sample(s as int),
{
    if s < -32768 {
        -32768
    } else if s > 32767 {
        32767
    } else {
        s as i16
    }
}

} // verus!
