use blipbuff::basic::{Demo1, CLOCK_RATE, FRAME_CLOCKS, SAMPLE_RATE};
use blipbuff::blipbuffer::BlipError;

const FRAME: i128 = 59659;

fn tuned() -> Demo1 {
    let mut demo = Demo1::new();
    assert_eq!(demo.set_rates(CLOCK_RATE, SAMPLE_RATE), Ok(()));
    demo
}

fn frame(demo: &mut Demo1) -> Vec<i16> {
    assert_eq!(demo.run_wave(FRAME), Ok(()));
    assert_eq!(demo.end_wave(FRAME), Ok(()));
    let mut samples = Vec::new();
    while demo.samples_available() {
        let (count, part) = demo.read_samples(512);
        assert_eq!(count as usize, part.len());
        samples.extend(part);
    }
    samples
}

#[test]
fn frame_is_a_sixtieth_of_a_second() {
    assert_eq!(FRAME_CLOCKS as u64, CLOCK_RATE / 60);
    assert_eq!(FRAME_CLOCKS as i128, FRAME);
}

#[test]
fn new_wave_is_silent() {
    let mut demo = tuned();
    assert!(!demo.samples_available());
    let samples = frame(&mut demo);
    assert_eq!(samples, vec![0i16; 734]);
}

#[test]
fn wave_grows_louder_and_slower() {
    let mut demo = tuned();
    assert_eq!(frame(&mut demo).len(), 734);
    assert_eq!(demo.modify_wave(), Ok(()));
    // Volume 100 at a period of 4 ticks is far above what the kernel lets
    // through: the output hardly moves.
    let second = frame(&mut demo);
    assert_eq!(second.len(), 735);
    assert_eq!(
        &second[..24],
        &[
            0, -1, 0, -1, 0, 0, -1, 0, -2, -2, 0, 0, 0, 0, 0, 0, 0, 0, 0, 0, 0, 0, 0, 0,
        ]
    );
    assert_eq!(demo.modify_wave(), Ok(()));
    let third = frame(&mut demo);
    assert_eq!(third.len(), 735);
    assert_eq!(
        &third[..24],
        &[
            0, 0, 0, 0, 0, 0, 0, -1, 3, 3, -1, 0, 0, 0, 0, 0, 0, 0, 0, 0, 0, 0, 0, 0,
        ]
    );
}

#[test]
fn wave_becomes_audible() {
    let mut demo = tuned();
    for _ in 0..60 {
        frame(&mut demo);
        assert_eq!(demo.modify_wave(), Ok(()));
    }
    // Volume 6000 at a period of 523 ticks.
    let samples = frame(&mut demo);
    assert_eq!(samples.len(), 735);
    assert_eq!(
        &samples[..32],
        &[
            -5487, -5909, -5459, -5928, -2318, 4970, 5635, 5789, 5588, 5816, 3679, -4029, -5961,
            -5660, -6011, -5536, -5710, 657, 6022, 5502, 6104, 5536, 6041, 2973, -4648, -5844,
            -5759, -5919, -5623, -5381, 1605, 6109,
        ]
    );
    assert_eq!(*samples.iter().max().unwrap(), 6132);
    assert_eq!(*samples.iter().min().unwrap(), -6128);
}

#[test]
fn run_wave_steps_at_its_own_time_first() {
    // The first step falls on tick 0; 20 steps a tick apart reach tick 20.
    let mut demo = tuned();
    assert_eq!(demo.run_wave(20), Ok(()));
    assert_eq!(demo.end_wave(21), Err(BlipError::Argument));
    assert_eq!(demo.end_wave(20), Ok(()));
    assert_eq!(demo.run_wave(0), Ok(()));
    assert_eq!(demo.run_wave(-3), Ok(()));
    assert_eq!(demo.end_wave(1), Err(BlipError::Argument));
    assert_eq!(demo.end_wave(-1), Err(BlipError::Argument));
    assert_eq!(demo.end_wave(0), Ok(()));
}

#[test]
fn wave_past_the_buffer_gets_a_capacity_error() {
    let mut demo = tuned();
    // 4410 samples are 357954 ticks; a step needs 16 slots of the 18 extra.
    assert_eq!(demo.run_wave(400000), Err(BlipError::Capacity));
    assert_eq!(demo.end_wave(400000), Err(BlipError::Argument));
    // The wave stands at the step that was refused.
    assert_eq!(demo.end_wave(358200), Err(BlipError::Argument));
    assert_eq!(demo.end_wave(358199), Err(BlipError::Capacity));
    assert_eq!(demo.end_wave(357954), Ok(()));
    assert_eq!(demo.read_samples(u32::MAX).0, 4409);
}

#[test]
fn frame_past_the_capacity_is_refused() {
    let mut demo = tuned();
    assert_eq!(demo.run_wave(358100), Ok(()));
    assert_eq!(demo.end_wave(358100), Err(BlipError::Capacity));
    assert!(!demo.samples_available());
    assert_eq!(demo.end_wave(357000), Ok(()));
    assert!(demo.samples_available());
}

#[test]
fn modify_wave_stops_at_32_bits() {
    let mut demo = Demo1::new();
    let mut rounds = 0u32;
    while demo.modify_wave() == Ok(()) {
        rounds += 1;
    }
    // The period grows by a 28th a round and is the first to leave 32 bits.
    assert_eq!(rounds, 510);
    assert_eq!(demo.modify_wave(), Err(BlipError::Argument));
}

#[test]
fn wave_refuses_bad_rates() {
    let mut demo = Demo1::new();
    assert_eq!(demo.set_rates(1, 0), Err(BlipError::Configuration));
    assert_eq!(demo.set_rates(CLOCK_RATE, SAMPLE_RATE), Ok(()));
}

#[test]
fn render_frame_is_run_end_read_and_modify() {
    let mut by_hand = tuned();
    let mut rendered = tuned();
    for _ in 0..40 {
        let expected = frame(&mut by_hand);
        assert_eq!(by_hand.modify_wave(), Ok(()));
        assert_eq!(rendered.render_frame(), Ok(expected));
        assert!(!rendered.samples_available());
    }
}

#[test]
fn render_frame_stops_where_the_period_leaves_32_bits() {
    // After 510 frames the period no longer grows; the frame before that
    // has its samples read and then reports the refusal.
    let mut demo = tuned();
    for _ in 0..510 {
        assert!(demo.render_frame().is_ok());
    }
    assert_eq!(demo.render_frame(), Err(BlipError::Argument));
    assert!(!demo.samples_available());
}
