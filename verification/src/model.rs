//! The mathematical model of the buffer: what each operation means on
//! unbounded integers and sequences. The executable buffer is specified
//! against it, and the laws of the engine are stated over it.

use crate::fixed::{clamp_sample, integrate_step, wrap_slot};
use crate::fixed::{INTEGRATOR_LIMIT, MAX_FACTOR, MIN_FACTOR, TIME_UNIT};
use crate::kernel::kernel_value;
use vstd::prelude::*;

verus! {

/// The state of a buffer as plain mathematical values.
pub struct BlipModel {
    /// Output samples per clock tick, in units of `1 / TIME_UNIT` of a sample.
    pub factor: nat,
    /// Part of a sample carried over from the frames that were closed.
    pub offset: nat,
    /// Samples at the head of `slots` that are ready to be read.
    pub avail: nat,
    /// The running sum of the leaky integrator.
    pub integrator: int,
    /// Amplitude differences that await integration, oldest first.
    pub slots: Seq<int>,
}

/// The two weights that interpolate a step between a kernel phase and the
/// next one: the second is `delta * interp / DELTA_UNIT` rounded down, the
/// first is what remains of `delta`.
pub open spec fn interpolation(delta: int, interp: int) -> (int, int) {
    let late = (delta * interp) / 32768;
    (delta - late, late)
}

/// Tap `k` of the 16 that one step of height `delta` adds to the buffer,
/// for a step at kernel phase `phase` and interpolation weight `interp`:
/// the kernel at `phase` and the kernel at the next phase, weighted.
pub open spec fn splat_tap(phase: int, interp: int, delta: int, k: int) -> int
    recommends
        0 <= phase < 32,
        0 <= interp < 32768,
        0 <= k < 16,
{
    let (early, late) = interpolation(delta, interp);
    kernel_value(phase, k) * early + kernel_value(phase + 1, k) * late
}

/// Sum of the taps `0 .. n` of one step.
pub open spec fn splat_sum(phase: int, interp: int, delta: int, n: nat) -> int
    decreases n,
{
    if n == 0 {
        0
    } else {
        splat_sum(phase, interp, delta, (n - 1) as nat) + splat_tap(
            phase,
            interp,
            delta,
            n - 1,
        )
    }
}

/// The integrator after it consumed the slots `0 .. n`, starting from `acc`.
pub open spec fn integrate(acc: int, slots: Seq<int>, n: nat) -> int
    recommends
        n <= slots.len(),
    decreases n,
{
    if n == 0 {
        acc
    } else {
        integrate_step(integrate(acc, slots, (n - 1) as nat), slots[n - 1])
    }
}

/// Sample `i` before saturation: the integrator, as it stands when slot `i`
/// is about to be consumed, without its `DELTA_BITS` fractional bits.
pub open spec fn raw_sample(acc: int, slots: Seq<int>, i: nat) -> int
    recommends
        i < slots.len(),
{
    integrate(acc, slots, i) / 32768
}

/// Sum of the slots `0 .. n`.
pub open spec fn slot_sum(slots: Seq<int>, n: nat) -> int
    recommends
        n <= slots.len(),
    decreases n,
{
    if n == 0 {
        0
    } else {
        slot_sum(slots, (n - 1) as nat) + slots[n - 1]
    }
}

/// Sum of the samples `0 .. n` before saturation.
pub open spec fn raw_sum(acc: int, slots: Seq<int>, n: nat) -> int
    recommends
        n <= slots.len(),
    decreases n,
{
    if n == 0 {
        0
    } else {
        raw_sum(acc, slots, (n - 1) as nat) + raw_sample(acc, slots, (n - 1) as nat)
    }
}

/// The slot-wise sum of two buffers of one length.
pub open spec fn mixed(a: Seq<int>, b: Seq<int>) -> Seq<int>
    recommends
        a.len() == b.len(),
{
    Seq::new(a.len(), |i: int| a[i] + b[i])
}

/// Whether two integrations can be added without a rounding carry over the
/// samples `0 .. n`: at each of them the two integrators' fractions, the
/// `DELTA_BITS` bits that a sample drops, together stay below one unit.
pub open spec fn carry_free(
    acc_a: int,
    a: Seq<int>,
    acc_b: int,
    b: Seq<int>,
    n: nat,
) -> bool {
    forall|i: nat|
        i < n ==> #[trigger] integrate(acc_a, a, i) % 32768 + integrate(acc_b, b, i) % 32768
            < 32768
}

/// The steps of `steps`, each `shift` ticks later.
pub open spec fn delayed(steps: Seq<Step>, shift: nat) -> Seq<Step> {
    Seq::new(steps.len(), |k: int| Step { time: steps[k].time + shift, delta: steps[k].delta })
}

/// One amplitude step: its clock tick within the frame and its height.
pub struct Step {
    pub time: nat,
    pub delta: int,
}

/// Whether `set_rates` accepts the two rates: neither is zero, and neither
/// is more than `BLIP_MAX_RATIO` times the other.
pub open spec fn rates_valid(clock_rate: nat, sample_rate: nat) -> bool {
    &&& clock_rate > 0
    &&& sample_rate <= 0x10_0000 * clock_rate
    &&& clock_rate <= 0x10_0000 * sample_rate
}

/// The factor for the two rates: `TIME_UNIT * sample_rate / clock_rate`,
/// rounded down.
pub open spec fn rate_factor(clock_rate: nat, sample_rate: nat) -> nat
    recommends
        clock_rate > 0,
{
    (0x10_0000_0000_0000 * sample_rate) / clock_rate
}

impl BlipModel {
    /// Output samples that may be pending at once.
    pub open spec fn capacity(self) -> int {
        self.slots.len() - 18
    }

    /// The invariant of a buffer.
    pub open spec fn wf(self) -> bool {
        &&& MIN_FACTOR <= self.factor <= MAX_FACTOR
        &&& self.offset < TIME_UNIT
        &&& 0 <= self.capacity() <= u32::MAX
        &&& self.avail <= self.capacity()
        &&& -INTEGRATOR_LIMIT <= self.integrator <= INTEGRATOR_LIMIT
        &&& forall|i: int|
            0 <= i < self.slots.len() ==> i64::MIN <= #[trigger] self.slots[i] <= i64::MAX
    }

    /// Whether nothing is pending: every slot and the integrator are zero.
    pub open spec fn silent(self) -> bool {
        &&& self.integrator == 0
        &&& forall|i: int| 0 <= i < self.slots.len() ==> #[trigger] self.slots[i] == 0
    }

    /// A new buffer for `capacity` samples: silent, with the smallest factor.
    pub open spec fn fresh(capacity: nat) -> BlipModel {
        BlipModel {
            factor: 0x1_0000_0000,
            offset: 0,
            avail: 0,
            integrator: 0,
            slots: Seq::new(capacity + 18, |i: int| 0int),
        }
    }

    /// The buffer with the factor for the two rates.
    pub open spec fn set_rates(self, clock_rate: nat, sample_rate: nat) -> BlipModel {
        BlipModel { factor: rate_factor(clock_rate, sample_rate), ..self }
    }

    /// Where clock tick `time` of the current frame falls: its distance from
    /// the frame origin in units of `1 / TIME_UNIT` of a sample. The frame
    /// origin is slot `avail`.
    pub open spec fn position(self, time: nat) -> nat {
        time * self.factor + self.offset
    }

    /// Whole samples between the frame origin and clock tick `time`.
    pub open spec fn sample_index(self, time: nat) -> nat {
        self.position(time) / 0x10_0000_0000_0000
    }

    /// The kernel row for a step at `time`: the top `PHASE_BITS` bits of the
    /// fraction of its position.
    pub open spec fn phase(self, time: nat) -> int {
        ((self.position(time) / 0x8000_0000_0000) % 32) as int
    }

    /// The weight of the next kernel row for a step at `time`: the
    /// `DELTA_BITS` bits of its position below the phase.
    pub open spec fn interp(self, time: nat) -> int {
        ((self.position(time) / 0x1_0000_0000) % 32768) as int
    }

    /// The first slot that a step at `time` touches.
    pub open spec fn start(self, time: nat) -> nat {
        self.avail + self.sample_index(time)
    }

    /// Whether the 16 slots of a step at `time` lie inside the buffer.
    pub open spec fn delta_fits(self, time: nat) -> bool {
        self.start(time) + 16 <= self.slots.len()
    }

    /// What a step of height `delta` at `time` adds to slot `i`, before
    /// wrapping: a tap of its kernel inside the 16 slots from `start`, and
    /// nothing elsewhere.
    pub open spec fn increment(self, time: nat, delta: int, i: int) -> int {
        let k = i - self.start(time);
        if 0 <= k < 16 {
            splat_tap(self.phase(time), self.interp(time), delta, k)
        } else {
            0
        }
    }

    /// The buffer after a step of height `delta` at `time`. Slots wrap as
    /// 64-bit two's complement numbers.
    pub open spec fn add_delta(self, time: nat, delta: int) -> BlipModel {
        BlipModel {
            slots: Seq::new(
                self.slots.len(),
                |i: int| wrap_slot(self.slots[i] + self.increment(time, delta, i)),
            ),
            ..self
        }
    }

    /// The buffer after the steps of `steps`, first to last.
    pub open spec fn add_deltas(self, steps: Seq<Step>) -> BlipModel
        decreases steps.len(),
    {
        if steps.len() == 0 {
            self
        } else {
            self.add_deltas(steps.drop_last()).add_delta(steps.last().time, steps.last().delta)
        }
    }

    /// What the steps of `steps` together add to slot `i`, before wrapping.
    pub open spec fn total_increment(self, steps: Seq<Step>, i: int) -> int
        decreases steps.len(),
    {
        if steps.len() == 0 {
            0
        } else {
            self.total_increment(steps.drop_last(), i) + self.increment(
                steps.last().time,
                steps.last().delta,
                i,
            )
        }
    }

    /// Samples that a frame of `clocks` ticks completes.
    pub open spec fn frame_samples(self, clocks: nat) -> nat {
        self.sample_index(clocks)
    }

    /// Whether the samples of a frame of `clocks` ticks fit in the capacity.
    pub open spec fn frame_fits(self, clocks: nat) -> bool {
        self.avail + self.frame_samples(clocks) <= self.capacity()
    }

    /// The buffer after a frame of `clocks` ticks was closed.
    pub open spec fn end_frame(self, clocks: nat) -> BlipModel {
        BlipModel {
            avail: self.avail + self.frame_samples(clocks),
            offset: self.position(clocks) % 0x10_0000_0000_0000,
            ..self
        }
    }

    /// Samples that a read of `count` hands out.
    pub open spec fn readable(self, count: nat) -> nat {
        if count <= self.avail {
            count
        } else {
            self.avail
        }
    }

    /// Sample `i` of the next read, saturated.
    pub open spec fn sample(self, i: nat) -> int {
        clamp_sample(raw_sample(self.integrator, self.slots, i))
    }

    /// What a read of `count` returns. Mono: the samples in order. Stereo:
    /// the samples at the even places and zero at the odd ones, cut at the
    /// same length.
    pub open spec fn output(self, count: nat, stereo: bool) -> Seq<int> {
        Seq::new(
            self.readable(count),
            |j: int|
                if !stereo {
                    self.sample(j as nat)
                } else if j % 2 == 0 {
                    self.sample((j / 2) as nat)
                } else {
                    0
                },
        )
    }

    /// The buffer after a read of `count`: the samples read are integrated
    /// and leave at the front, and as many empty slots enter at the back.
    pub open spec fn read_samples(self, count: nat) -> BlipModel {
        let n = self.readable(count);
        BlipModel {
            avail: (self.avail - n) as nat,
            integrator: integrate(self.integrator, self.slots, n),
            slots: Seq::new(
                self.slots.len(),
                |i: int|
                    if i + n < self.slots.len() {
                        self.slots[i + n]
                    } else {
                        0
                    },
            ),
            ..self
        }
    }
}

/// A position within a frame fits in 128 bits.
pub proof fn lemma_position_bounded(model: BlipModel, time: nat)
    requires
        model.wf(),
        time <= u32::MAX,
    ensures
        model.position(time) < 0x1_0000_0000_0000_0000_0000_0000_00,
        time * model.factor <= 0xFFFF_FFFF_0000_0000_0000_0000_00,
{
    let t = time as int;
    let f = model.factor as int;
    assert(t * f <= 0xFFFF_FFFF * 0x1_0000_0000_0000_0000_00) by (nonlinear_arith)
        requires
            0 <= t <= 0xFFFF_FFFF,
            0 <= f <= 0x1_0000_0000_0000_0000_00,
    ;
}

/// The two interpolation weights lie between zero and the step.
pub proof fn lemma_interpolation_bounded(delta: int, interp: int)
    requires
        0 <= interp < 32768,
    ensures
        delta >= 0 ==> 0 <= delta * interp <= delta * 32768,
        delta <= 0 ==> delta * 32768 <= delta * interp <= 0,
        delta >= 0 ==> 0 <= interpolation(delta, interp).0 <= delta && 0 <= interpolation(
            delta,
            interp,
        ).1 <= delta,
        delta <= 0 ==> delta <= interpolation(delta, interp).0 <= 0 && delta <= interpolation(
            delta,
            interp,
        ).1 <= 0,
{
    let p = delta * interp;
    assert(delta >= 0 ==> 0 <= p <= delta * 32768) by (nonlinear_arith)
        requires
            p == delta * interp,
            0 <= interp < 32768,
    ;
    assert(delta <= 0 ==> delta * 32768 <= p <= 0) by (nonlinear_arith)
        requires
            p == delta * interp,
            0 <= interp < 32768,
    ;
}

/// A tap times an interpolation weight fits well within 64 bits.
pub proof fn lemma_tap_product_bounded(tap: int, weight: int)
    requires
        -32768 < tap < 32768,
        -0x8000_0000 <= weight <= 0x8000_0000,
    ensures
        -0x4000_0000_0000 <= tap * weight <= 0x4000_0000_0000,
{
    assert(-0x4000_0000_0000 <= tap * weight <= 0x4000_0000_0000) by (nonlinear_arith)
        requires
            -32768 < tap < 32768,
            -0x8000_0000 <= weight <= 0x8000_0000,
    ;
}

/// Rates that `set_rates` accepts give a factor between `MIN_FACTOR` and
/// `MAX_FACTOR`.
pub proof fn lemma_rate_factor_bounded(clock_rate: nat, sample_rate: nat)
    requires
        rates_valid(clock_rate, sample_rate),
    ensures
        MIN_FACTOR <= rate_factor(clock_rate, sample_rate) <= MAX_FACTOR,
{
    let c = clock_rate as int;
    let s = sample_rate as int;
    let f = (0x10_0000_0000_0000 * s) / c;
    assert(f * c <= 0x10_0000_0000_0000 * s < f * c + c) by (nonlinear_arith)
        requires
            c > 0,
            f == (0x10_0000_0000_0000 * s) / c,
    ;
    assert(f <= 0x1_0000_0000_0000_0000_00) by (nonlinear_arith)
        requires
            c > 0,
            f * c <= 0x10_0000_0000_0000 * s,
            s <= 0x10_0000 * c,
    ;
    assert(f >= 0x1_0000_0000) by (nonlinear_arith)
        requires
            c > 0,
            0x10_0000_0000_0000 * s < f * c + c,
            c <= 0x10_0000 * s,
    ;
}

} // verus!
