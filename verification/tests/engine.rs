use blipbuff::blipbuffer::{BlipBuffer, BlipError};

const CLOCK_RATE: u64 = 3579545;
const SAMPLE_RATE: u64 = 44100;
const FRAME: u32 = 59659;

fn console_buffer() -> BlipBuffer {
    let mut buffer = BlipBuffer::new(4410);
    assert_eq!(buffer.set_rates(CLOCK_RATE, SAMPLE_RATE), Ok(()));
    buffer
}

fn read_all(buffer: &mut BlipBuffer) -> Vec<i16> {
    let (count, samples) = buffer.read_samples(u32::MAX, false);
    assert_eq!(count as usize, samples.len());
    samples
}

#[test]
fn new_buffer_is_empty() {
    let mut buffer = BlipBuffer::new(16);
    assert_eq!(buffer.samples_available(), 0);
    let (count, samples) = buffer.read_samples(8, false);
    assert_eq!(count, 0);
    assert!(samples.is_empty());
}

#[test]
fn new_buffer_has_the_smallest_factor() {
    // At the default factor 2^20 ticks make one sample.
    let mut buffer = BlipBuffer::new(16);
    assert_eq!(buffer.end_frame((1 << 20) - 1), Ok(()));
    assert_eq!(buffer.samples_available(), 0);
    assert_eq!(buffer.end_frame(1), Ok(()));
    assert_eq!(buffer.samples_available(), 1);
}

#[test]
fn silence_gives_zero_samples() {
    let mut buffer = console_buffer();
    assert_eq!(buffer.end_frame(FRAME), Ok(()));
    assert_eq!(buffer.samples_available(), 734);
    let (count, samples) = buffer.read_samples(1024, false);
    assert_eq!(count, 734);
    assert_eq!(samples, vec![0i16; 734]);
    assert_eq!(buffer.samples_available(), 0);
}

#[test]
fn dc_step_rises_band_limited() {
    let mut buffer = console_buffer();
    assert_eq!(buffer.add_delta(0, 16384), Ok(()));
    assert_eq!(buffer.end_frame(FRAME), Ok(()));
    let samples = read_all(&mut buffer);
    assert_eq!(samples.len(), 734);
    assert_eq!(
        &samples[..20],
        &[
            0, 21, -37, 139, -106, 462, 5, 2935, 13440, 16345, 15856, 16393, 16117, 16260,
            16171, 16161, 16129, 16098, 16066, 16035
        ]
    );
    // The bass cut lets the level droop slowly afterwards.
    assert_eq!(&samples[731..], &[3986, 3978, 3970]);
    for pair in samples[16..].windows(2) {
        assert!(pair[1] <= pair[0]);
    }
}

#[test]
fn step_energy_is_conserved() {
    // Without the bass cut the integrator would end at 16384 * 32768; what
    // is missing is 64 times the sum of the samples that were emitted.
    let mut probe = console_buffer();
    assert_eq!(probe.add_delta(0, 16384), Ok(()));
    assert_eq!(probe.end_frame(FRAME), Ok(()));
    let first = read_all(&mut probe);
    let leaked: i64 = first.iter().map(|&s| s as i64).sum::<i64>() * 64;
    // One more frame of silence: its first sample is the integrator without
    // its 15 fractional bits.
    assert_eq!(probe.end_frame(FRAME), Ok(()));
    let second = read_all(&mut probe);
    let integrator: i64 = 16384 * 32768 - leaked;
    assert_eq!(integrator, 129865536);
    assert_eq!(second[0] as i64, integrator >> 15);
}

#[test]
fn saturation_clamps_instead_of_wrapping() {
    let mut buffer = console_buffer();
    for _ in 0..4 {
        assert_eq!(buffer.add_delta(0, i16::MIN as i32), Ok(()));
    }
    assert_eq!(buffer.end_frame(FRAME), Ok(()));
    let samples = read_all(&mut buffer);
    assert_eq!(
        &samples[..12],
        &[0, -172, 288, -1113, 841, -3704, -41, -23485, -32768, -32768, -32768, -32768]
    );
    assert_eq!(*samples.iter().min().unwrap(), -32768);
    assert!(samples[8..400].iter().all(|&s| s == -32768));
}

#[test]
fn positive_saturation_clamps_at_the_top() {
    let mut buffer = console_buffer();
    for _ in 0..4 {
        assert_eq!(buffer.add_delta(0, 32767), Ok(()));
    }
    assert_eq!(buffer.end_frame(FRAME), Ok(()));
    let samples = read_all(&mut buffer);
    assert_eq!(
        &samples[..12],
        &[0, 171, -289, 1112, -842, 3703, 40, 23483, 32767, 32767, 32767, 32767]
    );
    assert_eq!(*samples.iter().max().unwrap(), 32767);
}

#[test]
fn kernel_tail_crosses_the_frame_boundary() {
    let mut buffer = console_buffer();
    assert_eq!(buffer.add_delta(FRAME - 1, 1000), Ok(()));
    assert_eq!(buffer.end_frame(FRAME), Ok(()));
    let first = read_all(&mut buffer);
    assert_eq!(first, vec![0i16; 734]);
    assert_eq!(buffer.end_frame(FRAME), Ok(()));
    let second = read_all(&mut buffer);
    assert_eq!(second.len(), 735);
    assert_eq!(
        &second[..16],
        &[0, 0, 1, -3, 8, -7, 28, -1, 186, 827, 996, 968, 1000, 983, 992, 986]
    );
}

#[test]
fn doubling_the_sample_rate_doubles_the_samples() {
    let mut buffer = console_buffer();
    assert_eq!(buffer.end_frame(FRAME), Ok(()));
    let single = buffer.samples_available();
    let mut doubled = BlipBuffer::new(4410);
    assert_eq!(doubled.set_rates(CLOCK_RATE, 2 * SAMPLE_RATE), Ok(()));
    assert_eq!(doubled.end_frame(FRAME), Ok(()));
    assert_eq!(single, 734);
    assert_eq!(doubled.samples_available(), 1469);
}

#[test]
fn stereo_read_interleaves_with_zeros() {
    let mut mono = console_buffer();
    assert_eq!(mono.add_delta(0, 16384), Ok(()));
    assert_eq!(mono.end_frame(FRAME), Ok(()));
    let mut stereo = console_buffer();
    assert_eq!(stereo.add_delta(0, 16384), Ok(()));
    assert_eq!(stereo.end_frame(FRAME), Ok(()));

    let (mono_count, mono_samples) = mono.read_samples(4, false);
    let (stereo_count, stereo_samples) = stereo.read_samples(4, true);
    assert_eq!(mono_count, 4);
    assert_eq!(stereo_count, 4);
    assert_eq!(mono_samples, vec![0, 21, -37, 139]);
    assert_eq!(stereo_samples, vec![0, 0, 21, 0]);
    assert_eq!(stereo_samples[0], mono_samples[0]);
    assert_eq!(stereo_samples[2], mono_samples[1]);
    // Both reads consumed four samples.
    assert_eq!(mono.samples_available(), 730);
    assert_eq!(stereo.samples_available(), 730);
    assert_eq!(read_all(&mut mono), read_all(&mut stereo));
}

#[test]
fn partial_reads_continue_where_they_stopped() {
    let mut whole = console_buffer();
    assert_eq!(whole.add_delta(100, 5000), Ok(()));
    assert_eq!(whole.end_frame(FRAME), Ok(()));
    let expected = read_all(&mut whole);

    let mut parts = console_buffer();
    assert_eq!(parts.add_delta(100, 5000), Ok(()));
    assert_eq!(parts.end_frame(FRAME), Ok(()));
    let (first_count, mut joined) = parts.read_samples(5, false);
    assert_eq!(first_count, 5);
    assert_eq!(parts.samples_available(), 729);
    let (second_count, rest) = parts.read_samples(1000, false);
    assert_eq!(second_count, 729);
    joined.extend(rest);
    assert_eq!(joined, expected);
}

#[test]
fn draining_twice_gives_nothing_the_second_time() {
    let mut buffer = console_buffer();
    assert_eq!(buffer.add_delta(10, 1234), Ok(()));
    assert_eq!(buffer.end_frame(FRAME), Ok(()));
    let (first, samples) = buffer.read_samples(5000, false);
    assert_eq!(first, 734);
    assert_eq!(samples.len(), 734);
    let (second, nothing) = buffer.read_samples(5000, false);
    assert_eq!(second, 0);
    assert!(nothing.is_empty());
    assert_eq!(buffer.samples_available(), 0);
}

#[test]
fn steps_superpose() {
    // 16 ticks per sample: one step at sample 0, one at sample 1.
    let mut a = BlipBuffer::new(64);
    assert_eq!(a.set_rates(16, 1), Ok(()));
    let mut b = BlipBuffer::new(64);
    assert_eq!(b.set_rates(16, 1), Ok(()));
    let mut both = BlipBuffer::new(64);
    assert_eq!(both.set_rates(16, 1), Ok(()));

    assert_eq!(a.add_delta(0, 4096), Ok(()));
    assert_eq!(b.add_delta(16, 8192), Ok(()));
    assert_eq!(both.add_delta(0, 4096), Ok(()));
    assert_eq!(both.add_delta(16, 8192), Ok(()));
    for buffer in [&mut a, &mut b, &mut both] {
        assert_eq!(buffer.end_frame(16 * 40), Ok(()));
    }
    let sa = read_all(&mut a);
    let sb = read_all(&mut b);
    let sab = read_all(&mut both);
    assert_eq!(&sa[..12], &[0, 5, -10, 34, -27, 115, 1, 733, 3360, 4086, 3964, 4098]);
    assert_eq!(&sb[..12], &[0, 0, 10, -19, 69, -53, 231, 2, 1467, 6720, 8172, 7928]);
    assert_eq!(&sab[..12], &[0, 5, 1, 16, 43, 63, 232, 736, 4827, 10806, 12136, 12026]);
    // The first two samples carry no rounding, so they add up exactly;
    // after that the sum may be off by the one unit that rounding moves.
    assert_eq!(sab[0], sa[0] + sb[0]);
    assert_eq!(sab[1], sa[1] + sb[1]);
    for i in 0..40 {
        let off = sab[i] - sa[i] - sb[i];
        assert!(-1 <= off && off <= 1);
    }
    assert_eq!(sab[2], sa[2] + sb[2] + 1);
}

#[test]
fn order_of_steps_does_not_matter() {
    let mut forward = console_buffer();
    assert_eq!(forward.add_delta(100, 700), Ok(()));
    assert_eq!(forward.add_delta(3000, -1300), Ok(()));
    assert_eq!(forward.end_frame(FRAME), Ok(()));
    let mut backward = console_buffer();
    assert_eq!(backward.add_delta(3000, -1300), Ok(()));
    assert_eq!(backward.add_delta(100, 700), Ok(()));
    assert_eq!(backward.end_frame(FRAME), Ok(()));
    assert_eq!(read_all(&mut forward), read_all(&mut backward));
}

#[test]
fn whole_sample_shift_delays_the_output() {
    // 16 ticks per sample: 48 ticks later is 3 samples later.
    let mut early = BlipBuffer::new(64);
    assert_eq!(early.set_rates(16, 1), Ok(()));
    let mut late = BlipBuffer::new(64);
    assert_eq!(late.set_rates(16, 1), Ok(()));
    assert_eq!(early.add_delta(5, 9000), Ok(()));
    assert_eq!(late.add_delta(5 + 48, 9000), Ok(()));
    assert_eq!(early.end_frame(16 * 40), Ok(()));
    assert_eq!(late.end_frame(16 * 40), Ok(()));
    let se = read_all(&mut early);
    let sl = read_all(&mut late);
    assert_eq!(&sl[..3], &[0, 0, 0]);
    assert_eq!(&sl[3..], &se[..37]);
}

#[test]
fn offset_carries_fractions_between_frames() {
    // 3 ticks per sample, one tick per frame.
    let mut buffer = BlipBuffer::new(64);
    assert_eq!(buffer.set_rates(3, 1), Ok(()));
    let mut counts = Vec::new();
    for _ in 0..6 {
        let before = buffer.samples_available();
        assert_eq!(buffer.end_frame(1), Ok(()));
        counts.push(buffer.samples_available() - before);
    }
    // The factor is rounded down, so the third tick falls just short of a
    // whole sample the first time round, and the fourth completes it.
    assert_eq!(counts, vec![0, 0, 0, 1, 0, 0]);
    assert_eq!(buffer.end_frame(1), Ok(()));
    assert_eq!(buffer.samples_available(), 2);
}

#[test]
fn samples_available_only_shrinks_by_reading() {
    let mut buffer = console_buffer();
    assert_eq!(buffer.end_frame(1000), Ok(()));
    let after_frame = buffer.samples_available();
    assert_eq!(after_frame, 12);
    assert_eq!(buffer.add_delta(0, 100), Ok(()));
    assert_eq!(buffer.samples_available(), after_frame);
    assert_eq!(buffer.set_rates(CLOCK_RATE, SAMPLE_RATE), Ok(()));
    assert_eq!(buffer.samples_available(), after_frame);
    assert_eq!(buffer.end_frame(0), Ok(()));
    assert_eq!(buffer.samples_available(), after_frame);
    let (count, _) = buffer.read_samples(5, false);
    assert_eq!(count, 5);
    assert_eq!(buffer.samples_available(), after_frame - 5);
}

#[test]
fn zero_clock_rate_is_refused() {
    let mut buffer = BlipBuffer::new(16);
    assert_eq!(buffer.set_rates(0, 44100), Err(BlipError::Configuration));
    assert_eq!(buffer.set_rates(0, 0), Err(BlipError::Configuration));
}

#[test]
fn rates_too_far_apart_are_refused() {
    let mut buffer = BlipBuffer::new(16);
    assert_eq!(buffer.set_rates(1, (1 << 20) + 1), Err(BlipError::Configuration));
    assert_eq!(buffer.set_rates((1 << 20) + 1, 1), Err(BlipError::Configuration));
    assert_eq!(buffer.set_rates(44100, 0), Err(BlipError::Configuration));
    assert_eq!(buffer.set_rates(1, 1 << 20), Ok(()));
    assert_eq!(buffer.set_rates(1 << 20, 1), Ok(()));
    assert_eq!(buffer.set_rates(u64::MAX, u64::MAX), Ok(()));
}

#[test]
fn refused_rates_leave_the_factor() {
    let mut buffer = BlipBuffer::new(16);
    assert_eq!(buffer.set_rates(4, 1), Ok(()));
    assert_eq!(buffer.set_rates(0, 1), Err(BlipError::Configuration));
    assert_eq!(buffer.end_frame(8), Ok(()));
    assert_eq!(buffer.samples_available(), 2);
}

#[test]
fn step_beyond_the_buffer_is_refused() {
    // Capacity 4 and 18 extra slots: a step may start at slot 6 at most.
    let mut buffer = BlipBuffer::new(4);
    assert_eq!(buffer.set_rates(1, 1), Ok(()));
    assert_eq!(buffer.add_delta(6, 100), Ok(()));
    assert_eq!(buffer.add_delta(7, 100), Err(BlipError::Capacity));
    assert_eq!(buffer.add_delta(u32::MAX, 100), Err(BlipError::Capacity));
    assert_eq!(buffer.end_frame(2), Ok(()));
    assert_eq!(buffer.add_delta(4, 100), Ok(()));
    assert_eq!(buffer.add_delta(5, 100), Err(BlipError::Capacity));
}

#[test]
fn refused_step_changes_nothing() {
    let mut plain = BlipBuffer::new(4);
    assert_eq!(plain.set_rates(1, 1), Ok(()));
    assert_eq!(plain.add_delta(0, 2000), Ok(()));
    let mut poked = BlipBuffer::new(4);
    assert_eq!(poked.set_rates(1, 1), Ok(()));
    assert_eq!(poked.add_delta(0, 2000), Ok(()));
    assert_eq!(poked.add_delta(7, 30000), Err(BlipError::Capacity));
    assert_eq!(plain.end_frame(4), Ok(()));
    assert_eq!(poked.end_frame(4), Ok(()));
    assert_eq!(read_all(&mut plain), read_all(&mut poked));
}

#[test]
fn frame_beyond_the_capacity_is_refused() {
    let mut buffer = BlipBuffer::new(4);
    assert_eq!(buffer.set_rates(1, 1), Ok(()));
    assert_eq!(buffer.end_frame(5), Err(BlipError::Capacity));
    assert_eq!(buffer.samples_available(), 0);
    assert_eq!(buffer.end_frame(4), Ok(()));
    assert_eq!(buffer.samples_available(), 4);
    assert_eq!(buffer.end_frame(1), Err(BlipError::Capacity));
    assert_eq!(buffer.end_frame(0), Ok(()));
    assert_eq!(buffer.read_samples(3, false).0, 3);
    assert_eq!(buffer.end_frame(3), Ok(()));
    assert_eq!(buffer.samples_available(), 4);
}

#[test]
fn read_moves_the_pending_kernel_forward() {
    // A step at sample 2 of a frame; after 3 samples are read, the rest of
    // its kernel must come out where it would have without that read.
    let mut whole = BlipBuffer::new(32);
    assert_eq!(whole.set_rates(1, 1), Ok(()));
    assert_eq!(whole.add_delta(2, 8192), Ok(()));
    assert_eq!(whole.end_frame(32), Ok(()));
    let expected = read_all(&mut whole);

    let mut split = BlipBuffer::new(32);
    assert_eq!(split.set_rates(1, 1), Ok(()));
    assert_eq!(split.add_delta(2, 8192), Ok(()));
    assert_eq!(split.end_frame(3), Ok(()));
    let (_, mut joined) = split.read_samples(3, false);
    assert_eq!(split.end_frame(29), Ok(()));
    joined.extend(read_all(&mut split));
    assert_eq!(joined, expected);
}

#[test]
fn interpolation_splits_a_step_between_two_phases() {
    // 128 ticks per sample and 32 phases: one tick is a quarter of a phase.
    let mut buffer = BlipBuffer::new(32);
    assert_eq!(buffer.set_rates(128, 1), Ok(()));
    assert_eq!(buffer.add_delta(1, 32768), Ok(()));
    assert_eq!(buffer.end_frame(128 * 20), Ok(()));
    let samples = read_all(&mut buffer);
    // Slot 0 gets 43 * 24576 + 44 * 8192 = 1417216, which is 43 whole
    // units of amplitude in the sample after it.
    assert_eq!(43 * 24576 + 44 * 8192, 1417216);
    assert_eq!(samples[0], 0);
    assert_eq!(samples[1], 43);
}

#[test]
fn two_frames_make_one() {
    let mut split = console_buffer();
    assert_eq!(split.end_frame(20000), Ok(()));
    assert_eq!(split.end_frame(39659), Ok(()));
    let mut whole = console_buffer();
    assert_eq!(whole.end_frame(FRAME), Ok(()));
    assert_eq!(split.samples_available(), whole.samples_available());
    // The offsets agree too: a step lands in the same place after either.
    assert_eq!(split.add_delta(77, 4000), Ok(()));
    assert_eq!(whole.add_delta(77, 4000), Ok(()));
    assert_eq!(split.end_frame(FRAME), Ok(()));
    assert_eq!(whole.end_frame(FRAME), Ok(()));
    assert_eq!(read_all(&mut split), read_all(&mut whole));
}

#[test]
fn step_is_the_same_on_either_side_of_a_frame_boundary() {
    let mut before = console_buffer();
    assert_eq!(before.add_delta(20000 + 345, -2500), Ok(()));
    assert_eq!(before.end_frame(20000), Ok(()));
    let mut after = console_buffer();
    assert_eq!(after.end_frame(20000), Ok(()));
    assert_eq!(after.add_delta(345, -2500), Ok(()));
    assert_eq!(before.end_frame(FRAME), Ok(()));
    assert_eq!(after.end_frame(FRAME), Ok(()));
    let expected = read_all(&mut before);
    assert_eq!(read_all(&mut after), expected);
    assert!(expected.iter().any(|&s| s != 0));
}

#[test]
fn reading_before_a_step_is_reading_after_it() {
    let mut first = console_buffer();
    assert_eq!(first.end_frame(FRAME), Ok(()));
    assert_eq!(first.add_delta(5, 6000), Ok(()));
    let (_, head) = first.read_samples(700, false);
    let mut second = console_buffer();
    assert_eq!(second.end_frame(FRAME), Ok(()));
    let (_, other_head) = second.read_samples(700, false);
    assert_eq!(second.add_delta(5, 6000), Ok(()));
    assert_eq!(head, other_head);
    assert_eq!(first.end_frame(FRAME), Ok(()));
    assert_eq!(second.end_frame(FRAME), Ok(()));
    let expected = read_all(&mut first);
    assert_eq!(read_all(&mut second), expected);
    assert!(expected.iter().any(|&s| s != 0));
}

#[test]
fn stereo_read_of_an_odd_count_ends_on_a_sample() {
    let mut mono = console_buffer();
    assert_eq!(mono.add_delta(0, 16384), Ok(()));
    assert_eq!(mono.end_frame(FRAME), Ok(()));
    let mut stereo = console_buffer();
    assert_eq!(stereo.add_delta(0, 16384), Ok(()));
    assert_eq!(stereo.end_frame(FRAME), Ok(()));
    let (_, m) = mono.read_samples(5, false);
    let (count, s) = stereo.read_samples(5, true);
    assert_eq!(count, 5);
    assert_eq!(s, vec![m[0], 0, m[1], 0, m[2]]);
    // All five samples were consumed: the next one is the sixth.
    assert_eq!(stereo.read_samples(1, true), (1, vec![462]));
    assert_eq!(stereo.read_samples(0, true), (0, vec![]));
}
