use blipbuff::blipbuffer::clamp_to_sample;
use blipbuff::fixed::{
    BASS_SHIFT, BLIP_MAX_RATIO, BUFFER_EXTRA, DELTA_BITS, DELTA_UNIT, FRAC_BITS, HALF_WIDTH,
    INTEGRATOR_LIMIT, MAX_FACTOR, MIN_FACTOR, PHASE_BITS, PHASE_COUNT, PRE_SHIFT, TIME_BITS,
    TIME_UNIT,
};
use blipbuff::kernel::{kernel_tap, BL_STEP};

fn row_sum(phase: usize) -> i32 {
    (0..8).map(|i| kernel_tap(phase, i)).sum()
}

#[test]
fn constants_agree() {
    assert_eq!(PRE_SHIFT, 32);
    assert_eq!(TIME_BITS, PRE_SHIFT + 20);
    assert_eq!(FRAC_BITS, TIME_BITS - PRE_SHIFT);
    assert_eq!(PHASE_BITS, 5);
    assert_eq!(PHASE_COUNT, 1 << PHASE_BITS);
    assert_eq!(DELTA_BITS, 15);
    assert_eq!(DELTA_UNIT, 1 << DELTA_BITS);
    assert_eq!(BASS_SHIFT, 9);
    assert_eq!(HALF_WIDTH, 8);
    assert_eq!(BUFFER_EXTRA, 2 * HALF_WIDTH + 2);
    assert_eq!(BLIP_MAX_RATIO, 1 << 20);
    assert_eq!(TIME_UNIT, 1 << TIME_BITS);
    assert_eq!(MIN_FACTOR, (TIME_UNIT / BLIP_MAX_RATIO) as u128);
    assert_eq!(MAX_FACTOR, TIME_UNIT as u128 * BLIP_MAX_RATIO as u128);
    assert_eq!(INTEGRATOR_LIMIT, ((1i128 << 63) + 64) << BASS_SHIFT);
}

#[test]
fn table_has_33_rows_of_8_taps() {
    assert_eq!(BL_STEP.len(), 33);
    assert!(BL_STEP.iter().all(|row| row.len() == 8));
    assert_eq!(BL_STEP[0], [43, -115, 350, -488, 1136, -914, 5861, 21022]);
    assert_eq!(BL_STEP[16], [32, -61, 115, 34, -60, 1006, -683, 16001]);
    assert_eq!(BL_STEP[32], [0, 43, -115, 350, -488, 1136, -914, 5861]);
}

#[test]
fn kernel_tap_reads_the_table() {
    assert_eq!(kernel_tap(0, 0), 43);
    assert_eq!(kernel_tap(0, 7), 21022);
    assert_eq!(kernel_tap(1, 7), 21001);
    assert_eq!(kernel_tap(13, 6), 22);
    assert_eq!(kernel_tap(31, 0), 1);
    assert_eq!(kernel_tap(32, 0), 0);
    assert_eq!(kernel_tap(32, 7), 5861);
    for phase in 0..33 {
        for i in 0..8 {
            assert_eq!(kernel_tap(phase, i), BL_STEP[phase][i]);
        }
    }
}

#[test]
fn every_kernel_sums_to_one_unit() {
    assert_eq!(row_sum(0), 26895);
    assert_eq!(row_sum(16), 16384);
    assert_eq!(row_sum(32), 5873);
    for phase in 0..33 {
        assert_eq!(row_sum(phase) + row_sum(32 - phase), 32768);
    }
}

#[test]
fn last_row_is_the_first_one_tap_later() {
    assert_eq!(kernel_tap(32, 0), 0);
    for i in 0..7 {
        assert_eq!(kernel_tap(32, i + 1), kernel_tap(0, i));
    }
}

#[test]
fn taps_are_smaller_than_one_unit() {
    for phase in 0..33 {
        for i in 0..8 {
            assert!(kernel_tap(phase, i).abs() < 32768);
        }
    }
}

#[test]
fn clamp_saturates_at_16_bits() {
    assert_eq!(clamp_to_sample(0), 0);
    assert_eq!(clamp_to_sample(32767), 32767);
    assert_eq!(clamp_to_sample(32768), 32767);
    assert_eq!(clamp_to_sample(-32768), -32768);
    assert_eq!(clamp_to_sample(-32769), -32768);
    assert_eq!(clamp_to_sample(i128::MAX), 32767);
    assert_eq!(clamp_to_sample(i128::MIN), -32768);
    assert_eq!(clamp_to_sample(-1), -1);
}
