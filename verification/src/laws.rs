//! Laws of the engine, proved over the model.

use crate::fixed::{clamp_sample, wrap_slot};
use crate::fixed::{lemma_integrate_step_bounded, lemma_wrap_slot_absorbs};
use crate::fixed::{lemma_wrap_slot_in_range, lemma_wrap_slot_range};
use crate::fixed::{INTEGRATOR_LIMIT, TIME_UNIT};
use crate::kernel::{lemma_kernel_is_unit_step, lemma_step_tap_bounded, row_sum, step_tap};
use crate::model::{carry_free, delayed, mixed};
use crate::model::{integrate, interpolation, raw_sample, raw_sum, slot_sum, splat_sum, splat_tap};
use crate::model::{lemma_interpolation_bounded, lemma_tap_product_bounded};
use crate::model::{BlipModel, Step};
use vstd::arithmetic::div_mod::{lemma_hoist_over_denominator, lemma_mod_multiples_vanish};
use vstd::prelude::*;

verus! {

/// The integrator stays within its limit over any number of slots that fit
/// in 64 bits.
pub proof fn lemma_integrate_bounded(acc: int, slots: Seq<int>, n: nat)
    requires
        -INTEGRATOR_LIMIT <= acc <= INTEGRATOR_LIMIT,
        n <= slots.len(),
        forall|i: int| 0 <= i < slots.len() ==> i64::MIN <= #[trigger] slots[i] <= i64::MAX,
    ensures
        -INTEGRATOR_LIMIT <= integrate(acc, slots, n) <= INTEGRATOR_LIMIT,
    decreases n,
{
    if n > 0 {
        lemma_integrate_bounded(acc, slots, (n - 1) as nat);
        lemma_integrate_step_bounded(integrate(acc, slots, (n - 1) as nat), slots[n - 1]);
    }
}

/// A step keeps the invariant, and moves neither the frame nor the count of
/// readable samples.
pub proof fn lemma_add_delta_keeps_invariant(s: BlipModel, time: nat, delta: int)
    requires
        s.wf(),
    ensures
        s.add_delta(time, delta).wf(),
        s.add_delta(time, delta).avail == s.avail,
        s.add_delta(time, delta).offset == s.offset,
        s.add_delta(time, delta).factor == s.factor,
        s.add_delta(time, delta).slots.len() == s.slots.len(),
{
    let after = s.add_delta(time, delta);
    assert forall|i: int| 0 <= i < after.slots.len() implies i64::MIN <= #[trigger] after.slots[i]
        <= i64::MAX by {
        lemma_wrap_slot_range(s.slots[i] + s.increment(time, delta, i));
    }
}

/// Closing a frame that fits keeps the invariant: the offset stays below
/// one sample, and the count of readable samples does not shrink and stays
/// within the capacity.
pub proof fn lemma_end_frame_keeps_invariant(s: BlipModel, clocks: nat)
    requires
        s.wf(),
        s.frame_fits(clocks),
    ensures
        s.end_frame(clocks).wf(),
        s.end_frame(clocks).offset < TIME_UNIT,
        s.avail <= s.end_frame(clocks).avail <= s.capacity(),
        s.end_frame(clocks).slots == s.slots,
{
}

/// A read keeps the invariant and the length of the buffer.
pub proof fn lemma_read_keeps_invariant(s: BlipModel, count: nat)
    requires
        s.wf(),
    ensures
        s.read_samples(count).wf(),
        s.read_samples(count).avail + s.readable(count) == s.avail,
        s.read_samples(count).slots.len() == s.slots.len(),
{
    lemma_integrate_bounded(s.integrator, s.slots, s.readable(count));
}

/// After a read of `k` samples, slot `i` holds what slot `i + k` held
/// before, and the last `k` slots are empty.
pub proof fn lemma_read_moves_slots_forward(s: BlipModel, count: nat, i: int)
    requires
        s.wf(),
        0 <= i < s.slots.len(),
    ensures
        i + s.readable(count) < s.slots.len() ==> s.read_samples(count).slots[i] == s.slots[i
            + s.readable(count)],
        i + s.readable(count) >= s.slots.len() ==> s.read_samples(count).slots[i] == 0,
{
}

/// A read that asks for at least what is available hands out exactly that
/// and leaves nothing; a read after it hands out nothing and changes
/// nothing.
pub proof fn lemma_drain_is_idempotent(s: BlipModel, first: nat, second: nat, stereo: bool)
    requires
        s.wf(),
        first >= s.avail,
    ensures
        s.output(first, stereo).len() == s.avail,
        s.read_samples(first).avail == 0,
        s.read_samples(first).output(second, stereo) == Seq::<int>::empty(),
        s.read_samples(first).read_samples(second) == s.read_samples(first),
{
    let once = s.read_samples(first);
    let twice = once.read_samples(second);
    assert(once.output(second, stereo) =~= Seq::<int>::empty());
    assert(twice.slots =~= once.slots);
}

/// Integrating `n` slots and then `m` more is integrating `n + m`.
pub proof fn lemma_integrate_continues(acc: int, slots: Seq<int>, n: nat, m: nat)
    requires
        n + m <= slots.len(),
    ensures
        integrate(integrate(acc, slots, n), slots.skip(n as int), m) == integrate(
            acc,
            slots,
            n + m,
        ),
    decreases m,
{
    if m > 0 {
        lemma_integrate_continues(acc, slots, n, (m - 1) as nat);
    }
}

/// Reads compose. A read of `first` samples that are all there, followed
/// by a read of `second`, leaves the buffer as one read of both does, and
/// the two mono outputs, one after the other, are the output of that read.
pub proof fn lemma_reads_compose(s: BlipModel, first: nat, second: nat)
    requires
        s.wf(),
        first <= s.avail,
    ensures
        s.read_samples(first).read_samples(second) == s.read_samples(first + second),
        s.output(first, false) + s.read_samples(first).output(second, false) == s.output(
            first + second,
            false,
        ),
{
    let once = s.read_samples(first);
    let both = s.read_samples(first + second);
    let m = once.readable(second);
    lemma_integrate_continues(s.integrator, s.slots, first, m);
    assert forall|i: nat| i <= m implies integrate(once.integrator, once.slots, i) == integrate(
        s.integrator,
        s.slots,
        first + i,
    ) by {
        lemma_integrate_continues(s.integrator, s.slots, first, i);
        lemma_integrate_reads_prefix(once.integrator, once.slots, s.slots.skip(first as int), i);
    }
    assert(once.read_samples(second).slots =~= both.slots);
    assert(s.output(first, false) + once.output(second, false) =~= s.output(
        first + second,
        false,
    )) by {
        assert forall|j: int| 0 <= j < m implies once.output(second, false)[j] == s.output(
            first + second,
            false,
        )[first + j] by {
            assert(integrate(once.integrator, once.slots, j as nat) == integrate(
                s.integrator,
                s.slots,
                first + j as nat,
            ));
        }
    }
}

/// Integration reads only the slots it consumes.
pub proof fn lemma_integrate_reads_prefix(acc: int, a: Seq<int>, b: Seq<int>, n: nat)
    requires
        n <= a.len(),
        n <= b.len(),
        forall|i: int| 0 <= i < n ==> a[i] == b[i],
    ensures
        integrate(acc, a, n) == integrate(acc, b, n),
    decreases n,
{
    if n > 0 {
        lemma_integrate_reads_prefix(acc, a, b, (n - 1) as nat);
    }
}

/// A stereo read has the length of the mono read of the same state; its
/// even places hold the first samples of the mono read, in order, and its
/// odd places hold zero.
pub proof fn lemma_stereo_interleaves(s: BlipModel, count: nat, j: int)
    requires
        s.wf(),
        0 <= j < s.readable(count),
    ensures
        s.output(count, true).len() == s.output(count, false).len(),
        j % 2 == 0 ==> s.output(count, true)[j] == s.output(count, false)[j / 2],
        j % 2 == 1 ==> s.output(count, true)[j] == 0,
{
}

/// The 16 taps of one step sum to the step's height in units of
/// `1 / DELTA_UNIT`: a step neither gains nor loses amplitude by where it
/// falls between two samples.
pub proof fn lemma_splat_sums_to_step(phase: int, interp: int, delta: int)
    requires
        0 <= phase < 32,
        0 <= interp < 32768,
    ensures
        splat_sum(phase, interp, delta, 16) == delta * 32768,
{
    let (early, late) = interpolation(delta, interp);
    let lead = row_sum(phase) + row_sum(32 - phase);
    let next = row_sum(phase + 1) + row_sum(31 - phase);
    lemma_kernel_is_unit_step(phase);
    lemma_kernel_is_unit_step(phase + 1);
    assert(splat_sum(phase, interp, delta, 16) == lead * early + next * late) by {
        reveal_with_fuel(splat_sum, 17);
        lemma_row_times_weight(phase, early);
        lemma_row_times_weight(32 - phase, early);
        lemma_row_times_weight(phase + 1, late);
        lemma_row_times_weight(31 - phase, late);
        assert(lead * early == row_sum(phase) * early + row_sum(32 - phase) * early)
            by (nonlinear_arith)
            requires
                lead == row_sum(phase) + row_sum(32 - phase),
        ;
        assert(next * late == row_sum(phase + 1) * late + row_sum(31 - phase) * late)
            by (nonlinear_arith)
            requires
                next == row_sum(phase + 1) + row_sum(31 - phase),
        ;
    }
}

/// A row's sum times a weight is the sum of its taps times that weight.
proof fn lemma_row_times_weight(phase: int, weight: int)
    ensures
        row_sum(phase) * weight == step_tap(phase, 0) * weight + step_tap(phase, 1) * weight
            + step_tap(phase, 2) * weight + step_tap(phase, 3) * weight + step_tap(phase, 4)
            * weight + step_tap(phase, 5) * weight + step_tap(phase, 6) * weight + step_tap(
            phase,
            7,
        ) * weight,
{
    let t0 = step_tap(phase, 0);
    let t1 = step_tap(phase, 1);
    let t2 = step_tap(phase, 2);
    let t3 = step_tap(phase, 3);
    let t4 = step_tap(phase, 4);
    let t5 = step_tap(phase, 5);
    let t6 = step_tap(phase, 6);
    let t7 = step_tap(phase, 7);
    assert((t0 + t1 + t2 + t3 + t4 + t5 + t6 + t7) * weight == t0 * weight + t1 * weight + t2
        * weight + t3 * weight + t4 * weight + t5 * weight + t6 * weight + t7 * weight)
        by (nonlinear_arith);
}

/// One tap of a step is far smaller than what a slot holds.
pub proof fn lemma_splat_tap_bounded(phase: int, interp: int, delta: int, k: int)
    requires
        0 <= phase < 32,
        0 <= interp < 32768,
        0 <= k < 16,
        i32::MIN <= delta <= i32::MAX,
    ensures
        -0x8000_0000_0000 <= splat_tap(phase, interp, delta, k) <= 0x8000_0000_0000,
{
    let (early, late) = interpolation(delta, interp);
    lemma_interpolation_bounded(delta, interp);
    if k < 8 {
        lemma_step_tap_bounded(phase, k);
        lemma_step_tap_bounded(phase + 1, k);
        lemma_tap_product_bounded(step_tap(phase, k), early);
        lemma_tap_product_bounded(step_tap(phase + 1, k), late);
    } else {
        lemma_step_tap_bounded(32 - phase, 15 - k);
        lemma_step_tap_bounded(31 - phase, 15 - k);
        lemma_tap_product_bounded(step_tap(32 - phase, 15 - k), early);
        lemma_tap_product_bounded(step_tap(31 - phase, 15 - k), late);
    }
}

/// The integrator holds what it was given, plus the slots it consumed,
/// minus what the bass cut took back: `2^(DELTA_BITS - BASS_SHIFT)` times
/// each sample it emitted.
pub proof fn lemma_integrator_balance(acc: int, slots: Seq<int>, n: nat)
    ensures
        integrate(acc, slots, n) == acc + slot_sum(slots, n) - 64 * raw_sum(acc, slots, n),
    decreases n,
{
    if n > 0 {
        lemma_integrator_balance(acc, slots, (n - 1) as nat);
    }
}

/// In a silent buffer, the slots up to `n` after one step sum to the taps of
/// that step that fall below `n`.
proof fn lemma_single_step_slot_sum(s: BlipModel, time: nat, delta: int, n: nat)
    requires
        s.wf(),
        s.silent(),
        i32::MIN <= delta <= i32::MAX,
        n <= s.slots.len(),
    ensures
        slot_sum(s.add_delta(time, delta).slots, n) == splat_sum(
            s.phase(time),
            s.interp(time),
            delta,
            if n <= s.start(time) {
                0nat
            } else if n >= s.start(time) + 16 {
                16nat
            } else {
                (n - s.start(time)) as nat
            },
        ),
    decreases n,
{
    if n > 0 {
        lemma_single_step_slot_sum(s, time, delta, (n - 1) as nat);
        let k = n - 1 - s.start(time);
        if 0 <= k < 16 {
            lemma_splat_tap_bounded(s.phase(time), s.interp(time), delta, k);
        }
    }
}

/// Conservation of a step. Put a single step of height `delta` into a
/// silent buffer, close a frame long enough to make all 16 slots of its
/// kernel readable, and read everything. Then what the integrator holds,
/// together with what the bass cut took back, `2^(DELTA_BITS - BASS_SHIFT)`
/// times each sample before saturation, is exactly `delta * DELTA_UNIT`.
pub proof fn lemma_step_is_conserved(s: BlipModel, time: nat, delta: int, clocks: nat)
    requires
        s.wf(),
        s.silent(),
        i32::MIN <= delta <= i32::MAX,
        s.frame_fits(clocks),
        s.start(time) + 16 <= s.end_frame(clocks).avail,
    ensures
        ({
            let played = s.add_delta(time, delta).end_frame(clocks);
            played.read_samples(played.avail).integrator + 64 * raw_sum(
                0,
                played.slots,
                played.avail,
            ) == delta * 32768
        }),
{
    let stepped = s.add_delta(time, delta);
    let played = stepped.end_frame(clocks);
    let n = played.avail;
    lemma_integrator_balance(0, played.slots, n);
    lemma_single_step_slot_sum(s, time, delta, n);
    lemma_splat_sums_to_step(s.phase(time), s.interp(time), delta);
}

/// Steps keep the invariant, and move neither the frame nor the count of
/// readable samples.
pub proof fn lemma_add_deltas_keeps_invariant(s: BlipModel, steps: Seq<Step>)
    requires
        s.wf(),
    ensures
        s.add_deltas(steps).wf(),
        s.add_deltas(steps).avail == s.avail,
        s.add_deltas(steps).offset == s.offset,
        s.add_deltas(steps).factor == s.factor,
        s.add_deltas(steps).integrator == s.integrator,
        s.add_deltas(steps).slots.len() == s.slots.len(),
    decreases steps.len(),
{
    if steps.len() > 0 {
        lemma_add_deltas_keeps_invariant(s, steps.drop_last());
        lemma_add_delta_keeps_invariant(
            s.add_deltas(steps.drop_last()),
            steps.last().time,
            steps.last().delta,
        );
    }
}

/// After any steps, each slot holds what it held before plus what the steps
/// add to it, wrapped to 64 bits.
pub proof fn lemma_add_deltas_slots(s: BlipModel, steps: Seq<Step>, i: int)
    requires
        s.wf(),
        0 <= i < s.slots.len(),
    ensures
        s.add_deltas(steps).slots[i] == wrap_slot(s.slots[i] + s.total_increment(steps, i)),
    decreases steps.len(),
{
    if steps.len() == 0 {
        lemma_wrap_slot_in_range(s.slots[i]);
    } else {
        let head = steps.drop_last();
        let last = steps.last();
        lemma_add_deltas_slots(s, head, i);
        lemma_add_deltas_keeps_invariant(s, head);
        let mid = s.add_deltas(head);
        assert(mid.increment(last.time, last.delta, i) == s.increment(last.time, last.delta, i));
        lemma_wrap_slot_absorbs(
            s.slots[i] + s.total_increment(head, i),
            s.increment(last.time, last.delta, i),
        );
    }
}

/// What two runs of steps add to a slot together is the sum of what each
/// adds.
pub proof fn lemma_total_increment_concat(s: BlipModel, a: Seq<Step>, b: Seq<Step>, i: int)
    ensures
        s.total_increment(a + b, i) == s.total_increment(a, i) + s.total_increment(b, i),
    decreases b.len(),
{
    if b.len() == 0 {
        assert(a + b =~= a);
    } else {
        assert((a + b).drop_last() =~= a + b.drop_last());
        assert((a + b).last() == b.last());
        lemma_total_increment_concat(s, a, b.drop_last(), i);
    }
}

/// Superposition in the buffer. After the steps of `a` and of `b`, each
/// slot holds the sum of what it holds after `a` alone and after `b` alone,
/// less what it held before, wrapped to 64 bits.
pub proof fn lemma_steps_superpose(s: BlipModel, a: Seq<Step>, b: Seq<Step>, i: int)
    requires
        s.wf(),
        0 <= i < s.slots.len(),
    ensures
        s.add_deltas(a + b).slots[i] == wrap_slot(
            s.add_deltas(a).slots[i] + s.add_deltas(b).slots[i] - s.slots[i],
        ),
{
    lemma_add_deltas_slots(s, a, i);
    lemma_add_deltas_slots(s, b, i);
    lemma_add_deltas_slots(s, a + b, i);
    lemma_total_increment_concat(s, a, b, i);
    let base = s.slots[i];
    let ta = s.total_increment(a, i);
    let tb = s.total_increment(b, i);
    lemma_wrap_slot_absorbs(base + ta, wrap_slot(base + tb) - base);
    lemma_wrap_slot_absorbs(base + tb, ta);
}

/// The order of two runs of steps does not matter.
pub proof fn lemma_steps_commute(s: BlipModel, a: Seq<Step>, b: Seq<Step>)
    requires
        s.wf(),
    ensures
        s.add_deltas(a + b) == s.add_deltas(b + a),
{
    lemma_add_deltas_keeps_invariant(s, a + b);
    lemma_add_deltas_keeps_invariant(s, b + a);
    assert forall|i: int| 0 <= i < s.slots.len() implies s.add_deltas(a + b).slots[i]
        == s.add_deltas(b + a).slots[i] by {
        lemma_add_deltas_slots(s, a + b, i);
        lemma_add_deltas_slots(s, b + a, i);
        lemma_total_increment_concat(s, a, b, i);
        lemma_total_increment_concat(s, b, a, i);
    }
    assert(s.add_deltas(a + b).slots =~= s.add_deltas(b + a).slots);
}

/// Superposition in the integrator. Two integrations without a rounding
/// carry add up: integrating the slot-wise sum of two buffers from the sum
/// of two integrators gives, at every sample, the sum of the two
/// integrators and the sum of the two samples.
pub proof fn lemma_integration_superposes(
    acc_a: int,
    a: Seq<int>,
    acc_b: int,
    b: Seq<int>,
    n: nat,
    i: nat,
)
    requires
        a.len() == b.len(),
        n <= a.len(),
        carry_free(acc_a, a, acc_b, b, n),
        i <= n,
    ensures
        integrate(acc_a + acc_b, mixed(a, b), i) == integrate(acc_a, a, i) + integrate(
            acc_b,
            b,
            i,
        ),
        i < n ==> raw_sample(acc_a + acc_b, mixed(a, b), i) == raw_sample(acc_a, a, i)
            + raw_sample(acc_b, b, i),
    decreases i,
{
    if i > 0 {
        lemma_integration_superposes(acc_a, a, acc_b, b, n, (i - 1) as nat);
    }
}

/// Superposition in the integrator, up to rounding. Whatever the fractions
/// do, integrating the slot-wise sum of two buffers from the sum of two
/// integrators never exceeds the sum of the two integrators and falls
/// short of it by at most one unit of amplitude, and each sample is within
/// 1 of the sum of the two samples.
pub proof fn lemma_integration_superposes_nearly(
    acc_a: int,
    a: Seq<int>,
    acc_b: int,
    b: Seq<int>,
    i: nat,
)
    requires
        a.len() == b.len(),
        i <= a.len(),
    ensures
        -32768 <= integrate(acc_a + acc_b, mixed(a, b), i) - integrate(acc_a, a, i)
            - integrate(acc_b, b, i) <= 0,
        (integrate(acc_a + acc_b, mixed(a, b), i) - integrate(acc_a, a, i) - integrate(
            acc_b,
            b,
            i,
        )) % 64 == 0,
        -1 <= raw_sample(acc_a + acc_b, mixed(a, b), i) - raw_sample(acc_a, a, i) - raw_sample(
            acc_b,
            b,
            i,
        ) <= 1,
    decreases i,
{
    if i > 0 {
        lemma_integration_superposes_nearly(acc_a, a, acc_b, b, (i - 1) as nat);
    }
}

/// Where superposition in the integrator ends. If two integrators add up
/// at a sample but their fractions carry there, the sample of the sum is
/// one more than the sum of the two samples.
pub proof fn lemma_integration_carry_adds_one(
    acc_a: int,
    a: Seq<int>,
    acc_b: int,
    b: Seq<int>,
    i: nat,
)
    requires
        a.len() == b.len(),
        i < a.len(),
        integrate(acc_a + acc_b, mixed(a, b), i) == integrate(acc_a, a, i) + integrate(
            acc_b,
            b,
            i,
        ),
        integrate(acc_a, a, i) % 32768 + integrate(acc_b, b, i) % 32768 >= 32768,
    ensures
        raw_sample(acc_a + acc_b, mixed(a, b), i) == raw_sample(acc_a, a, i) + raw_sample(
            acc_b,
            b,
            i,
        ) + 1,
{
}

/// Superposition of the output. Take a silent buffer and two runs of steps
/// whose slots, added up, nowhere exceed 64 bits. Close the same frame after
/// `a` alone, after `b` alone and after both. Where the two integrations
/// add without a rounding carry, each sample read after both is the sum of
/// the samples read after either, saturated.
pub proof fn lemma_output_superposes(
    s: BlipModel,
    a: Seq<Step>,
    b: Seq<Step>,
    clocks: nat,
    count: nat,
    i: nat,
)
    requires
        s.wf(),
        s.silent(),
        s.frame_fits(clocks),
        forall|j: int|
            0 <= j < s.slots.len() ==> i64::MIN <= #[trigger] s.add_deltas(a).slots[j]
                + s.add_deltas(b).slots[j] <= i64::MAX,
        carry_free(
            0,
            s.add_deltas(a).slots,
            0,
            s.add_deltas(b).slots,
            s.end_frame(clocks).readable(count),
        ),
        i < s.end_frame(clocks).readable(count),
    ensures
        s.add_deltas(a + b).end_frame(clocks).output(count, false).len() == s.add_deltas(
            a,
        ).end_frame(clocks).output(count, false).len(),
        s.add_deltas(a + b).end_frame(clocks).output(count, false).len() == s.add_deltas(
            b,
        ).end_frame(clocks).output(count, false).len(),
        s.add_deltas(a + b).end_frame(clocks).output(count, false)[i as int] == clamp_sample(
            raw_sample(0, s.add_deltas(a).slots, i) + raw_sample(0, s.add_deltas(b).slots, i),
        ),
        s.add_deltas(a).end_frame(clocks).output(count, false)[i as int] == clamp_sample(
            raw_sample(0, s.add_deltas(a).slots, i),
        ),
        s.add_deltas(b).end_frame(clocks).output(count, false)[i as int] == clamp_sample(
            raw_sample(0, s.add_deltas(b).slots, i),
        ),
{
    let sa = s.add_deltas(a);
    let sb = s.add_deltas(b);
    let sab = s.add_deltas(a + b);
    lemma_add_deltas_keeps_invariant(s, a);
    lemma_add_deltas_keeps_invariant(s, b);
    lemma_add_deltas_keeps_invariant(s, a + b);
    assert forall|j: int| 0 <= j < s.slots.len() implies sab.slots[j] == mixed(
        sa.slots,
        sb.slots,
    )[j] by {
        lemma_steps_superpose(s, a, b, j);
        lemma_wrap_slot_in_range(sa.slots[j] + sb.slots[j]);
    }
    assert(sab.slots =~= mixed(sa.slots, sb.slots));
    let n = s.end_frame(clocks).readable(count);
    lemma_integration_superposes(0, sa.slots, 0, sb.slots, n, i);
}

/// Superposition of the output, up to rounding. Take a silent buffer and
/// two runs of steps whose slots, added up, nowhere exceed 64 bits. Then
/// each sample after both runs is, before saturation, within 1 of the sum
/// of the samples after either.
pub proof fn lemma_output_superposes_nearly(s: BlipModel, a: Seq<Step>, b: Seq<Step>, i: nat)
    requires
        s.wf(),
        s.silent(),
        forall|j: int|
            0 <= j < s.slots.len() ==> i64::MIN <= #[trigger] s.add_deltas(a).slots[j]
                + s.add_deltas(b).slots[j] <= i64::MAX,
        i <= s.slots.len(),
    ensures
        -1 <= raw_sample(0, s.add_deltas(a + b).slots, i) - raw_sample(
            0,
            s.add_deltas(a).slots,
            i,
        ) - raw_sample(0, s.add_deltas(b).slots, i) <= 1,
{
    let sa = s.add_deltas(a);
    let sb = s.add_deltas(b);
    let sab = s.add_deltas(a + b);
    lemma_add_deltas_keeps_invariant(s, a);
    lemma_add_deltas_keeps_invariant(s, b);
    lemma_add_deltas_keeps_invariant(s, a + b);
    assert forall|j: int| 0 <= j < s.slots.len() implies sab.slots[j] == mixed(
        sa.slots,
        sb.slots,
    )[j] by {
        lemma_steps_superpose(s, a, b, j);
        lemma_wrap_slot_in_range(sa.slots[j] + sb.slots[j]);
    }
    assert(sab.slots =~= mixed(sa.slots, sb.slots));
    lemma_integration_superposes_nearly(0, sa.slots, 0, sb.slots, i);
}

/// Integration does not depend on when it starts: if buffer `b` is buffer
/// `a` behind `k` empty slots, the integrator stands after `k + n` slots of
/// `b` where it stands after `n` slots of `a`, and it stands at zero over
/// the empty slots.
pub proof fn lemma_integration_is_time_invariant(a: Seq<int>, b: Seq<int>, k: nat, n: nat)
    requires
        n <= a.len(),
        k + n <= b.len(),
        forall|j: int| 0 <= j < k ==> #[trigger] b[j] == 0,
        forall|j: int| 0 <= j < n ==> #[trigger] b[j + k] == a[j],
    ensures
        integrate(0, b, k + n) == integrate(0, a, n),
        forall|j: nat| j <= k ==> #[trigger] integrate(0, b, j) == 0,
    decreases k + n,
{
    if n > 0 {
        lemma_integration_is_time_invariant(a, b, k, (n - 1) as nat);
        assert(b[(n - 1) + k] == a[n - 1]);
    } else if k > 0 {
        lemma_integration_is_time_invariant(a, b, (k - 1) as nat, 0);
        assert(b[k - 1] == 0);
        assert forall|j: nat| j <= k implies #[trigger] integrate(0, b, j) == 0 by {
            if j == k {
                assert(integrate(0, b, (k - 1) as nat) == 0);
            }
        }
    }
}

/// Moving a step `shift` ticks later moves its position by `shift * factor`:
/// the sample it falls in by the whole samples in that distance, or by one
/// more where the fractions carry, and its place within the sample, which
/// selects the kernel, by what remains of the distance.
pub proof fn lemma_shift_moves_position(s: BlipModel, time: nat, shift: nat)
    ensures
        s.position(time + shift) == s.position(time) + shift * s.factor,
        s.sample_index(time) + (shift * s.factor) / 0x10_0000_0000_0000 <= s.sample_index(
            time + shift,
        ) <= s.sample_index(time) + (shift * s.factor) / 0x10_0000_0000_0000 + 1,
        s.position(time + shift) % 0x10_0000_0000_0000 == (s.position(time)
            % 0x10_0000_0000_0000 + (shift * s.factor) % 0x10_0000_0000_0000)
            % 0x10_0000_0000_0000,
{
    assert((time + shift) * s.factor == time * s.factor + shift * s.factor)
        by (nonlinear_arith);
}

/// Moving a step later by a whole number of samples keeps its kernel phase
/// and interpolation weight, and moves what it adds to the buffer by that
/// number of slots.
pub proof fn lemma_whole_shift_moves_increment(
    s: BlipModel,
    time: nat,
    shift: nat,
    delta: int,
    i: int,
)
    requires
        (shift * s.factor) % 0x10_0000_0000_0000 == 0,
    ensures
        s.phase(time + shift) == s.phase(time),
        s.interp(time + shift) == s.interp(time),
        s.start(time + shift) == s.start(time) + (shift * s.factor) / 0x10_0000_0000_0000,
        s.increment(time + shift, delta, i + (shift * s.factor) / 0x10_0000_0000_0000)
            == s.increment(time, delta, i),
{
    lemma_shift_moves_position(s, time, shift);
    let k = (shift * s.factor) / 0x10_0000_0000_0000;
    lemma_whole_samples_keep_fraction(s.position(time) as int, k as int);
}

/// Adding whole samples to a position moves its sample and keeps its
/// kernel phase and interpolation weight.
proof fn lemma_whole_samples_keep_fraction(pos: int, k: int)
    requires
        pos >= 0,
        k >= 0,
    ensures
        (pos + k * 0x10_0000_0000_0000) / 0x10_0000_0000_0000 == pos / 0x10_0000_0000_0000 + k,
        ((pos + k * 0x10_0000_0000_0000) / 0x8000_0000_0000) % 32 == (pos / 0x8000_0000_0000)
            % 32,
        ((pos + k * 0x10_0000_0000_0000) / 0x1_0000_0000) % 32768 == (pos / 0x1_0000_0000)
            % 32768,
{
    let moved = pos + k * 0x10_0000_0000_0000;
    assert(moved / 0x10_0000_0000_0000 == pos / 0x10_0000_0000_0000 + k) by {
        lemma_hoist_over_denominator(pos, k, 0x10_0000_0000_0000);
    }
    let rows = 32 * k;
    assert(moved / 0x8000_0000_0000 == pos / 0x8000_0000_0000 + rows) by {
        assert(moved == pos + rows * 0x8000_0000_0000);
        lemma_hoist_over_denominator(pos, rows, 0x8000_0000_0000);
    }
    assert((pos / 0x8000_0000_0000 + rows) % 32 == (pos / 0x8000_0000_0000) % 32) by {
        lemma_mod_multiples_vanish(k, pos / 0x8000_0000_0000, 32);
    }
    let weights = 0x10_0000 * k;
    assert(moved / 0x1_0000_0000 == pos / 0x1_0000_0000 + weights) by {
        assert(moved == pos + weights * 0x1_0000_0000);
        lemma_hoist_over_denominator(pos, weights, 0x1_0000_0000);
    }
    assert((pos / 0x1_0000_0000 + weights) % 32768 == (pos / 0x1_0000_0000) % 32768) by {
        assert(weights == 32768 * (32 * k));
        lemma_mod_multiples_vanish(32 * k, pos / 0x1_0000_0000, 32768);
    }
}

/// Moving every step of a run later by a whole number of samples moves what
/// the run adds to the buffer by that number of slots.
pub proof fn lemma_whole_shift_moves_total(s: BlipModel, steps: Seq<Step>, shift: nat, i: int)
    requires
        (shift * s.factor) % 0x10_0000_0000_0000 == 0,
    ensures
        s.total_increment(delayed(steps, shift), i + (shift * s.factor) / 0x10_0000_0000_0000)
            == s.total_increment(steps, i),
    decreases steps.len(),
{
    if steps.len() > 0 {
        assert(delayed(steps, shift).drop_last() =~= delayed(steps.drop_last(), shift));
        lemma_whole_shift_moves_total(s, steps.drop_last(), shift, i);
        lemma_whole_shift_moves_increment(s, steps.last().time, shift, steps.last().delta, i);
    }
}

/// Steps moved later by a whole number of samples add nothing to the slots
/// before that number.
proof fn lemma_delayed_adds_nothing_early(s: BlipModel, steps: Seq<Step>, shift: nat, j: int)
    requires
        (shift * s.factor) % 0x10_0000_0000_0000 == 0,
        0 <= j < (shift * s.factor) / 0x10_0000_0000_0000,
    ensures
        s.total_increment(delayed(steps, shift), j) == 0,
    decreases steps.len(),
{
    if steps.len() > 0 {
        let k = (shift * s.factor) / 0x10_0000_0000_0000;
        assert(delayed(steps, shift).drop_last() =~= delayed(steps.drop_last(), shift));
        lemma_delayed_adds_nothing_early(s, steps.drop_last(), shift, j);
        lemma_whole_shift_moves_increment(
            s,
            steps.last().time,
            shift,
            steps.last().delta,
            j - k,
        );
    }
}

/// Time invariance. In a silent buffer, moving every step of a run later by
/// `shift` ticks that make a whole number `k` of samples delays the output
/// by `k` samples: sample `i + k` is what sample `i` was, and the samples
/// up to `k` are zero.
pub proof fn lemma_time_invariance(s: BlipModel, steps: Seq<Step>, shift: nat, i: nat)
    requires
        s.wf(),
        s.silent(),
        (shift * s.factor) % 0x10_0000_0000_0000 == 0,
        i + (shift * s.factor) / 0x10_0000_0000_0000 < s.slots.len(),
    ensures
        raw_sample(
            0,
            s.add_deltas(delayed(steps, shift)).slots,
            i + (shift * s.factor) / 0x10_0000_0000_0000,
        ) == raw_sample(0, s.add_deltas(steps).slots, i),
        forall|j: nat|
            j <= (shift * s.factor) / 0x10_0000_0000_0000 ==> #[trigger] raw_sample(
                0,
                s.add_deltas(delayed(steps, shift)).slots,
                j,
            ) == 0,
{
    let k = (shift * s.factor) / 0x10_0000_0000_0000;
    let early = s.add_deltas(steps);
    let late = s.add_deltas(delayed(steps, shift));
    lemma_add_deltas_keeps_invariant(s, steps);
    lemma_add_deltas_keeps_invariant(s, delayed(steps, shift));
    assert forall|j: int| 0 <= j < k implies #[trigger] late.slots[j] == 0 by {
        lemma_add_deltas_slots(s, delayed(steps, shift), j);
        lemma_delayed_adds_nothing_early(s, steps, shift, j);
    }
    assert forall|j: int| 0 <= j < i implies #[trigger] late.slots[j + k] == early.slots[j] by {
        lemma_add_deltas_slots(s, delayed(steps, shift), j + k);
        lemma_add_deltas_slots(s, steps, j);
        lemma_whole_shift_moves_total(s, steps, shift, j);
    }
    lemma_integration_is_time_invariant(early.slots, late.slots, k as nat, i);
}

/// Frames compose. Two frames closed one after the other leave the buffer
/// as one frame of their joint length does: the offset carries what the
/// first frame left over, and no part of a sample is lost between them.
pub proof fn lemma_frames_compose(s: BlipModel, first: nat, second: nat)
    ensures
        s.end_frame(first).end_frame(second) == s.end_frame(first + second),
{
    let f = s.factor as int;
    assert((first + second) * f == first * f + second * f) by (nonlinear_arith);
}

/// A frame boundary is transparent to a step. A step at `time` of the frame
/// that follows a frame of `clocks` ticks is the step at `clocks + time`
/// of that frame itself.
pub proof fn lemma_step_crosses_frames(s: BlipModel, clocks: nat, time: nat, delta: int)
    ensures
        s.end_frame(clocks).add_delta(time, delta) == s.add_delta(clocks + time, delta).end_frame(
            clocks,
        ),
{
    let f = s.factor as int;
    let closed = s.end_frame(clocks);
    assert((clocks + time) * f == clocks * f + time * f) by (nonlinear_arith);
    let whole = s.position(clocks) / 0x10_0000_0000_0000;
    lemma_whole_samples_keep_fraction(closed.position(time) as int, whole as int);
    assert(s.position(clocks + time) == closed.position(time) + whole * 0x10_0000_0000_0000);
    assert(closed.add_delta(time, delta).slots =~= s.add_delta(clocks + time, delta).slots);
}

/// A read does not disturb a step. Reading before a step that fits gives
/// the buffer that reading after it gives.
pub proof fn lemma_read_commutes_with_step(s: BlipModel, count: nat, time: nat, delta: int)
    requires
        s.wf(),
        s.delta_fits(time),
    ensures
        s.read_samples(count).add_delta(time, delta) == s.add_delta(time, delta).read_samples(
            count,
        ),
        s.output(count, false) == s.add_delta(time, delta).output(count, false),
{
    let n = s.readable(count);
    let read = s.read_samples(count);
    let stepped = s.add_delta(time, delta);
    assert forall|i: int| 0 <= i < n implies stepped.slots[i] == s.slots[i] by {
        lemma_wrap_slot_in_range(s.slots[i]);
    }
    assert forall|i: nat| i <= n implies integrate(s.integrator, stepped.slots, i) == integrate(
        s.integrator,
        s.slots,
        i,
    ) by {
        lemma_integrate_reads_prefix(s.integrator, stepped.slots, s.slots, i);
    }
    assert(read.add_delta(time, delta).slots =~= stepped.read_samples(count).slots) by {
        assert forall|i: int| 0 <= i < s.slots.len() implies read.add_delta(time, delta).slots[i]
            == stepped.read_samples(count).slots[i] by {
            assert(read.increment(time, delta, i) == s.increment(time, delta, i + n));
            if i + n >= s.slots.len() {
                lemma_wrap_slot_in_range(0);
            }
        }
    }
    assert(s.output(count, false) =~= stepped.output(count, false));
}

/// A read does not disturb a frame. Reading samples that are there before
/// a frame is closed gives what reading them after it gives.
pub proof fn lemma_read_commutes_with_frame(s: BlipModel, count: nat, clocks: nat)
    requires
        count <= s.avail,
    ensures
        s.read_samples(count).end_frame(clocks) == s.end_frame(clocks).read_samples(count),
        s.output(count, false) == s.end_frame(clocks).output(count, false),
{
    assert(s.output(count, false) =~= s.end_frame(clocks).output(count, false));
}

} // verus!
