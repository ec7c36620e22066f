//! Playback: how a sound source becomes the frames that an output device
//! asks for.
//!
//! A device asks for buffers of frames, each frame one value per channel. A
//! [`FrameClock`] tells the time of each frame, and [`render`] fills a buffer
//! from a source, with the same value on every channel of a frame.

use crate::flick::{Flick, FLICKS_PER_SECOND};
use crate::synth::{Sample, Synth};
use vstd::prelude::*;

verus! {

/// Counts the frames handed to a device, and tells the time of each.
pub struct FrameClock {
    /// The number of frames handed out so far.
    pub tick: u64,
    /// The number of flicks from one frame to the next.
    pub rate_multiplier: u64,
}

impl FrameClock {
    /// The time of the `frames`-th frame from now, in flicks. The next frame
    /// is the first.
    pub open spec fn time_after(&self, frames: nat) -> nat {
        ((self.tick + frames) * self.rate_multiplier) as nat
    }

    /// Whether the clock can count `frames` more frames and tell their
    /// times in 64 bits.
    pub open spec fn covers(&self, frames: nat) -> bool {
        self.tick + frames <= u64::MAX && self.time_after(frames) <= u64::MAX
    }

    /// The time of the `frames`-th frame from now.
    pub open spec fn frame_time(&self, frames: nat) -> Flick {
        Flick(self.time_after(frames) as u64)
    }

    /// A clock that can count some frames can count fewer.
    pub proof fn lemma_covers_fewer(&self, fewer: nat, frames: nat)
        requires
            self.covers(frames),
            fewer <= frames,
        ensures
            self.covers(fewer),
    {
        assert((self.tick + fewer) * self.rate_multiplier <= (self.tick + frames)
            * self.rate_multiplier) by (nonlinear_arith)
            requires
                fewer <= frames,
                0 <= self.tick,
                0 <= self.rate_multiplier,
        ;
    }

    /// A clock that has handed out nothing yet, for a device that plays
    /// `sample_rate` frames a second. The step from frame to frame is a
    /// whole number of flicks: what a rate that does not divide the second
    /// evenly leaves over is dropped.
    pub fn new(sample_rate: u32) -> (clock: FrameClock)
        requires
            sample_rate > 0,
        ensures
            clock.tick == 0,
            clock.rate_multiplier == FLICKS_PER_SECOND / (sample_rate as u64),
    {
        FrameClock { tick: 0, rate_multiplier: FLICKS_PER_SECOND / (sample_rate as u64) }
    }

    /// Whether the clock can count `frames` more frames.
    pub fn can_cover(&self, frames: u64) -> (ok: bool)
        ensures
            ok == self.covers(frames as nat),
    {
        match self.tick.checked_add(frames) {
            Some(last) => last.checked_mul(self.rate_multiplier).is_some(),
            None => false,
        }
    }

    /// Counts one frame and returns its time. Both steps are checked, as
    /// sums of flicks are.
    pub fn advance(&mut self) -> (t: Flick)
        requires
            old(self).covers(1),
        ensures
            final(self).tick == old(self).tick + 1,
            final(self).rate_multiplier == old(self).rate_multiplier,
            t.0 == old(self).time_after(1),
    {
        let tick = match self.tick.checked_add(1) {
            Some(tick) => tick,
            None => unreached(),
        };
        let time = match tick.checked_mul(self.rate_multiplier) {
            Some(time) => time,
            None => unreached(),
        };
        self.tick = tick;
        Flick(time)
    }
}

/// A sample on the scale of unsigned 16-bit numbers: silence lies in the
/// middle of the range, and the result is rounded towards zero.
pub open spec fn u16_level(s: Sample) -> u16 {
    ((s + 128) * 65535 / 256) as u16
}

/// A sample on the scale of signed 16-bit numbers, rounded towards zero.
pub open spec fn i16_level(s: Sample) -> i16 {
    if s >= 0 {
        (s * 32767 / 128) as i16
    } else {
        (-((-s) * 32767 / 128)) as i16
    }
}

/// Brings a sample to the scale of unsigned 16-bit numbers.
pub fn to_u16(s: Sample) -> (v: u16)
    ensures
        v == u16_level(s),
{
    let raised: i32 = s as i32 + 128;
    (raised * 65535 / 256) as u16
}

/// Brings a sample to the scale of signed 16-bit numbers.
pub fn to_i16(s: Sample) -> (v: i16)
    ensures
        v == i16_level(s),
{
    let wide: i32 = s as i32;
    if wide >= 0 {
        (wide * 32767 / 128) as i16
    } else {
        (-((-wide) * 32767 / 128)) as i16
    }
}

/// The number of frames in a buffer of `len` values with `channels` values
/// to a frame. A frame that the buffer ends in the middle of counts.
pub open spec fn frames_in(len: nat, channels: nat) -> nat {
    ((len + channels - 1) / (channels as int)) as nat
}

/// The number of frames in a buffer of `len` values with `channels` values
/// to a frame.
pub fn frame_count(len: usize, channels: usize) -> (n: usize)
    requires
        channels > 0,
    ensures
        n == frames_in(len as nat, channels as nat),
{
    let whole = len / channels;
    let rest = len % channels;
    assert({
        &&& len == whole * channels + rest
        &&& rest < channels
        &&& whole <= whole * channels
        &&& (whole + 1) * channels == whole * channels + channels
        &&& (whole - 1) * channels == whole * channels - channels
    }) by (nonlinear_arith)
        requires
            channels > 0,
            whole == len / channels,
            rest == len % channels,
    ;
    if rest == 0 {
        proof {
            lemma_frames(len as int, channels as int, whole as int);
        }
        whole
    } else {
        proof {
            lemma_frames(len as int, channels as int, whole + 1);
        }
        whole + 1
    }
}

/// How a count of frames stands to the frames that a buffer holds: frames
/// that do not fill the buffer are fewer, and the first count that fills it
/// is their number.
proof fn lemma_frames(len: int, channels: int, count: int)
    by (nonlinear_arith)
    requires
        channels > 0,
        0 <= len,
        0 <= count,
    ensures
        count * channels < len ==> count < (len + channels - 1) / channels,
        len <= count * channels && (count == 0 || (count - 1) * channels < len) ==> count == (len
            + channels - 1) / channels,
{
    let q = (len + channels - 1) / channels;
    let r = (len + channels - 1) % channels;
    assert(len + channels - 1 == q * channels + r && 0 <= r < channels);
    if count < q {
        assert((count + 1) * channels <= q * channels);
    }
    if count > q {
        assert((q + 1) * channels <= count * channels);
    }
    if count == q {
        assert(count * channels == q * channels);
    }
}

/// A value that stands before the first value of frame `count` belongs to
/// an earlier frame, and a value that does not, to that frame or a later one.
proof fn lemma_frame_of(i: int, channels: int, count: int)
    by (nonlinear_arith)
    requires
        channels > 0,
        0 <= i,
        0 <= count,
    ensures
        i < count * channels ==> i / channels < count,
        count * channels <= i ==> count <= i / channels,
{
    let q = i / channels;
    let r = i % channels;
    assert(i == q * channels + r && 0 <= r < channels);
    if i < count * channels && q >= count {
        assert(count * channels <= q * channels);
    }
    if count * channels <= i && q < count {
        assert((q + 1) * channels <= count * channels);
    }
}

/// Fills `buffer` with the frames that follow the last one that `clock`
/// counted, `channels` values to a frame. For each frame the clock is
/// advanced once and `synth` is sampled once, at the frame's time; what
/// `convert` makes of the sample goes to every channel of the frame. Where
/// the buffer ends in the middle of a frame, the part of it that is there is
/// filled.
pub fn render<S, T, F>(synth: &S, clock: &mut FrameClock, channels: usize, buffer: &mut [T], convert: F)
    where S: Synth, T: Copy, F: Fn(Sample) -> T
    requires
        channels > 0,
        old(clock).covers(frames_in(old(buffer)@.len(), channels as nat)),
        forall|k: nat|
            1 <= k <= frames_in(old(buffer)@.len(), channels as nat) ==> synth.playable(
                #[trigger] old(clock).frame_time(k),
            ),
        forall|s: Sample| call_requires(convert, (s,)),
    ensures
        final(buffer)@.len() == old(buffer)@.len(),
        final(clock).rate_multiplier == old(clock).rate_multiplier,
        final(clock).tick == old(clock).tick + frames_in(old(buffer)@.len(), channels as nat),
        forall|i: int|
            0 <= i < final(buffer)@.len() ==> call_ensures(
                convert,
                (synth.amplitude(old(clock).frame_time((i / (channels as int) + 1) as nat)),),
                #[trigger] final(buffer)@[i],
            ),
        forall|i: int, j: int|
            0 <= i <= j < final(buffer)@.len() && i / (channels as int) == j / (channels as int)
                ==> final(buffer)@[i] == final(buffer)@[j],
{
    let len = buffer.len();
    let ghost first = *clock;
    let ghost total = frames_in(len as nat, channels as nat);
    let ghost mut count: nat = 0;
    let mut start: usize = 0;
    proof {
        lemma_frames(len as int, channels as int, 0);
    }
    while start < len
        invariant
            channels > 0,
            forall|k: nat| 1 <= k <= total ==> synth.playable(#[trigger] first.frame_time(k)),
            forall|s: Sample| call_requires(convert, (s,)),
            buffer@.len() == len,
            start <= len,
            start == len || start == count * channels,
            count == 0 || (count - 1) * channels < len,
            total == frames_in(len as nat, channels as nat),
            first.covers(total),
            clock.rate_multiplier == first.rate_multiplier,
            clock.tick == first.tick + count,
            start == len ==> count == total,
            forall|i: int|
                0 <= i < start ==> call_ensures(
                    convert,
                    (synth.amplitude(first.frame_time((i / (channels as int) + 1) as nat)),),
                    #[trigger] buffer@[i],
                ),
            forall|i: int, j: int|
                0 <= i <= j < start && i / (channels as int) == j / (channels as int)
                    ==> buffer@[i] == buffer@[j],
        decreases len - start,
    {
        proof {
            lemma_frames(len as int, channels as int, count as int);
            first.lemma_covers_fewer(count + 1, total);
        }
        let t = clock.advance();
        assert(t == first.frame_time(count + 1));
        let value = convert(synth.sample(t));
        let end = if len - start < channels {
            len
        } else {
            start + channels
        };
        let ghost before = buffer@;
        let mut i: usize = start;
        while i < end
            invariant
                start <= i <= end <= len,
                buffer@.len() == len,
                before.len() == len,
                forall|j: int| 0 <= j < start ==> buffer@[j] == before[j],
                forall|j: int| start <= j < i ==> buffer@[j] == value,
            decreases end - i,
        {
            buffer[i] = value;
            i = i + 1;
        }
        proof {
            assert((count + 1) * channels == count * channels + channels) by (nonlinear_arith);
            assert forall|i: int| 0 <= i < end implies call_ensures(
                convert,
                (synth.amplitude(first.frame_time((i / (channels as int) + 1) as nat)),),
                #[trigger] buffer@[i],
            ) by {
                if i >= start {
                    lemma_frame_of(i, channels as int, count as int);
                    lemma_frame_of(i, channels as int, count as int + 1);
                    assert(i / (channels as int) == count);
                    assert(first.frame_time((count + 1) as nat) == t);
                    assert(buffer@[i] == value);
                } else {
                    assert(buffer@[i] == before[i]);
                }
            }
            assert forall|i: int, j: int|
                0 <= i <= j < end && i / (channels as int) == j / (channels as int)
                implies buffer@[i] == buffer@[j] by {
                if j < start {
                    assert(buffer@[i] == before[i] && buffer@[j] == before[j]);
                } else if i < start {
                    lemma_frame_of(i, channels as int, count as int);
                    lemma_frame_of(j, channels as int, count as int);
                } else {
                    assert(buffer@[i] == value && buffer@[j] == value);
                }
            }
            if end == len {
                lemma_frames(len as int, channels as int, count as int + 1);
            }
            count = count + 1;
        }
        start = end;
    }
}

} // verus!
