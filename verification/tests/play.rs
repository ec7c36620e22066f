use bloop::play::{frame_count, render, to_i16, to_u16, FrameClock};
use bloop::{Flick, Music, Primitive, Sample, Synth, FLICKS_PER_SECOND};

struct Level(Sample);

impl Synth for Level {
    fn sample(&self, _t: Flick) -> Sample {
        self.0
    }
}

/// The number of the frame at 44100 frames a second, as far as a sample
/// holds it.
struct FrameNumber;

impl Synth for FrameNumber {
    fn sample(&self, t: Flick) -> Sample {
        (t.0 / 16_000) as Sample
    }
}

/// A voice that others may change between two samples.
struct Shared(std::sync::Mutex<Level>);

impl Synth for Shared {
    fn sample(&self, t: Flick) -> Sample {
        self.0.lock().unwrap().sample(t)
    }
}

#[test]
fn clock_steps_by_whole_flicks() {
    assert_eq!(FrameClock::new(44_100).rate_multiplier, 16_000);
    assert_eq!(FrameClock::new(48_000).rate_multiplier, 14_700);
    assert_eq!(FrameClock::new(96_000).rate_multiplier, 7_350);
    assert_eq!(FrameClock::new(1).rate_multiplier, FLICKS_PER_SECOND);
    assert_eq!(FrameClock::new(44_100).tick, 0);
}

#[test]
fn clock_drops_what_a_rate_leaves_over() {
    // 705600000 / 17 = 41505882.35...
    assert_eq!(FrameClock::new(17).rate_multiplier, 41_505_882);
    assert_eq!(FrameClock::new(u32::MAX).rate_multiplier, 0);
}

#[test]
fn clock_counts_before_it_tells_the_time() {
    let mut clock = FrameClock::new(44_100);
    assert_eq!(clock.advance(), Flick(16_000));
    assert_eq!(clock.tick, 1);
    assert_eq!(clock.advance(), Flick(32_000));
    assert_eq!(clock.advance(), Flick(48_000));
    assert_eq!(clock.tick, 3);
    assert_eq!(clock.rate_multiplier, 16_000);
}

#[test]
fn clock_reaches_a_second_after_a_second_of_frames() {
    let mut clock = FrameClock { tick: 44_099, rate_multiplier: 16_000 };
    assert_eq!(clock.advance(), Flick(FLICKS_PER_SECOND));
}

#[test]
fn clock_knows_how_far_it_can_count() {
    let clock = FrameClock { tick: 10, rate_multiplier: 16_000 };
    assert!(clock.can_cover(0));
    assert!(clock.can_cover(1));
    assert!(clock.can_cover(u64::MAX / 16_000 - 10));
    assert!(!clock.can_cover(u64::MAX / 16_000 - 9));
    assert!(!clock.can_cover(u64::MAX));
    let still = FrameClock { tick: u64::MAX - 1, rate_multiplier: 0 };
    assert!(still.can_cover(1));
    assert!(!still.can_cover(2));
    let last = FrameClock { tick: u64::MAX - 1, rate_multiplier: 1 };
    assert!(last.can_cover(1));
}

#[test]
fn clock_counts_to_the_last_frame() {
    let mut clock = FrameClock { tick: u64::MAX - 1, rate_multiplier: 1 };
    assert_eq!(clock.advance(), Flick(u64::MAX));
    assert_eq!(clock.tick, u64::MAX);
    assert!(!clock.can_cover(1));
}

#[test]
fn unsigned_levels() {
    assert_eq!(to_u16(0), 32_767);
    assert_eq!(to_u16(-128), 0);
    assert_eq!(to_u16(127), 65_279);
    assert_eq!(to_u16(100), 58_367);
    assert_eq!(to_u16(1), 33_023);
    assert_eq!(to_u16(-1), 32_511);
}

#[test]
fn signed_levels() {
    assert_eq!(to_i16(0), 0);
    assert_eq!(to_i16(-128), -32_767);
    assert_eq!(to_i16(127), 32_511);
    assert_eq!(to_i16(100), 25_599);
    assert_eq!(to_i16(-100), -25_599);
    assert_eq!(to_i16(1), 255);
    assert_eq!(to_i16(-1), -255);
}

#[test]
fn levels_agree_with_scaling_in_floating_point() {
    let mut sample: Sample = Sample::MIN;
    loop {
        let unit: f32 = (sample as f32) / 128.0;
        assert_eq!(to_u16(sample), ((unit * 0.5 + 0.5) * u16::MAX as f32) as u16);
        assert_eq!(to_i16(sample), (unit * i16::MAX as f32) as i16);
        if sample == Sample::MAX {
            break;
        }
        sample += 1;
    }
}

#[test]
fn frames_are_counted_with_the_started_one() {
    assert_eq!(frame_count(0, 2), 0);
    assert_eq!(frame_count(1, 2), 1);
    assert_eq!(frame_count(2, 2), 1);
    assert_eq!(frame_count(3, 2), 2);
    assert_eq!(frame_count(512, 2), 256);
    assert_eq!(frame_count(7, 1), 7);
    assert_eq!(frame_count(7, 8), 1);
    assert_eq!(frame_count(usize::MAX, 1), usize::MAX);
    assert_eq!(frame_count(usize::MAX, usize::MAX), 1);
    assert_eq!(frame_count(usize::MAX, 2), usize::MAX / 2 + 1);
}

#[test]
fn every_channel_of_a_frame_gets_the_same_value() {
    let mut clock = FrameClock::new(44_100);
    let mut buffer: [u16; 6] = [9; 6];
    render(&FrameNumber, &mut clock, 2, &mut buffer, to_u16);
    assert_eq!(buffer, [to_u16(1), to_u16(1), to_u16(2), to_u16(2), to_u16(3), to_u16(3)]);
    assert_eq!(buffer, [33_023, 33_023, 33_279, 33_279, 33_535, 33_535]);
    assert_eq!(clock.tick, 3);
    assert_eq!(clock.rate_multiplier, 16_000);
}

#[test]
fn the_next_buffer_goes_on_where_the_last_one_ended() {
    let mut clock = FrameClock::new(44_100);
    let mut buffer: [i16; 4] = [0; 4];
    render(&FrameNumber, &mut clock, 2, &mut buffer, to_i16);
    assert_eq!(buffer, [255, 255, 511, 511]);
    render(&FrameNumber, &mut clock, 2, &mut buffer, to_i16);
    assert_eq!(buffer, [767, 767, 1_023, 1_023]);
    assert_eq!(clock.tick, 4);
}

#[test]
fn a_started_frame_is_filled_as_far_as_it_goes() {
    let mut clock = FrameClock::new(44_100);
    let mut buffer: [i16; 5] = [0; 5];
    render(&FrameNumber, &mut clock, 3, &mut buffer, to_i16);
    assert_eq!(buffer, [255, 255, 255, 511, 511]);
    assert_eq!(clock.tick, 2);
}

#[test]
fn one_channel_gets_one_value_a_frame() {
    let mut clock = FrameClock::new(44_100);
    let mut buffer: Vec<u16> = vec![0; 4];
    render(&FrameNumber, &mut clock, 1, &mut buffer, to_u16);
    assert_eq!(buffer, vec![to_u16(1), to_u16(2), to_u16(3), to_u16(4)]);
    assert_eq!(clock.tick, 4);
}

#[test]
fn an_empty_buffer_leaves_the_clock_alone() {
    let mut clock = FrameClock { tick: 7, rate_multiplier: 16_000 };
    let mut buffer: [u16; 0] = [];
    render(&Level(1), &mut clock, 2, &mut buffer, to_u16);
    assert_eq!(clock.tick, 7);
}

#[test]
fn floating_point_frames() {
    let mut clock = FrameClock::new(48_000);
    let mut buffer: [f32; 4] = [0.0; 4];
    render(&Level(-64), &mut clock, 2, &mut buffer, |s: Sample| (s as f32) / 128.0);
    assert_eq!(buffer, [-0.5, -0.5, -0.5, -0.5]);
    assert_eq!(clock.tick, 2);
}

#[test]
fn music_is_rendered_at_the_time_of_each_frame() {
    // Two frames of sound, then silence.
    let music = Music::Sequence(
        Box::new(Music::Prim(Primitive::Note(Flick(32_000), Level(100)))),
        Box::new(Music::Prim(Primitive::Rest(Flick(32_000)))),
    );
    let mut clock = FrameClock::new(44_100);
    let mut buffer: [i16; 8] = [1; 8];
    render(&music, &mut clock, 2, &mut buffer, to_i16);
    assert_eq!(buffer, [25_599, 25_599, 25_599, 25_599, 0, 0, 0, 0]);
}

#[test]
fn rendering_through_a_lock_takes_it_once_a_sample() {
    let shared = Shared(std::sync::Mutex::new(Level(50)));
    let mut clock = FrameClock::new(44_100);
    let mut buffer: [u16; 2] = [0; 2];
    render(&shared, &mut clock, 2, &mut buffer, to_u16);
    assert_eq!(buffer, [45_567, 45_567]);
    shared.0.lock().unwrap().0 = -50;
    render(&shared, &mut clock, 2, &mut buffer, to_u16);
    assert_eq!(buffer, [19_967, 19_967]);
}
