//! Sound sources, and how several of them are mixed into one.

use crate::flick::Flick;
use vstd::prelude::*;

verus! {

/// A quantized amplitude.
pub type Sample = i8;

/// The amplitude nearest to `x` that a [`Sample`] can hold.
pub open spec fn saturate(x: int) -> Sample {
    if x > Sample::MAX {
        Sample::MAX
    } else if x < Sample::MIN {
        Sample::MIN
    } else {
        x as Sample
    }
}

/// Two amplitudes sounding together: their sum, held to the range of a
/// [`Sample`].
pub open spec fn mix(a: Sample, b: Sample) -> Sample {
    saturate(a + b)
}

/// The voices of `voices` sounding together at time `t`, mixed one after
/// another from the first to the last.
pub open spec fn mix_all<T: Synth>(voices: Seq<T>, t: Flick) -> Sample
    decreases voices.len(),
{
    if voices.len() == 0 {
        0
    } else {
        mix(mix_all(voices.drop_last(), t), voices.last().amplitude(t))
    }
}

/// `i8::saturating_add` of the standard library: the sum of the two numbers
/// where it fits in eight bits, else the bound on the side where it left them.
pub assume_specification[ i8::saturating_add ](x: i8, y: i8) -> (r: i8)
    ensures
        r == mix(x, y),
;

/// A source of sound: something that has an amplitude at every time.
///
/// What a source sounds like is a function of the source and of the time
/// alone: [`Synth::sample`] returns [`Synth::amplitude`]. A source whose
/// amplitude is known says so by defining `amplitude`.
pub trait Synth: Send {
    /// Whether the source can be sampled at time `t`. A source that does not
    /// say otherwise always can.
    open spec fn playable(&self, t: Flick) -> bool {
        true
    }

    /// The amplitude of the source at time `t`. Of a source that does not
    /// say otherwise nothing more is known than that there is one.
    open spec fn amplitude(&self, t: Flick) -> Sample {
        arbitrary::<spec_fn(&Self, Flick) -> Sample>()(self, t)
    }

    /// Given a time in flicks, returns the amplitude at that time.
    fn sample(&self, t: Flick) -> (s: Sample)
        requires
            self.playable(t),
        ensures
            s == self.amplitude(t),
    ;
}

impl<T: Synth> Synth for Vec<T> {
    /// A set of voices can be sampled when each of them can.
    open spec fn playable(&self, t: Flick) -> bool {
        forall|i: int| 0 <= i < self@.len() ==> (#[trigger] self@[i]).playable(t)
    }

    open spec fn amplitude(&self, t: Flick) -> Sample {
        mix_all(self@, t)
    }

    /// All voices at time `t`, mixed.
    fn sample(&self, t: Flick) -> (s: Sample) {
        let mut acc: Sample = 0;
        let mut i: usize = 0;
        while i < self.len()
            invariant
                i <= self@.len(),
                self.playable(t),
                acc == mix_all(self@.take(i as int), t),
            decreases self@.len() - i,
        {
            let voice = self[i].sample(t);
            assert(self@.take(i + 1).drop_last() == self@.take(i as int));
            acc = acc.saturating_add(voice);
            i = i + 1;
        }
        assert(self@.take(i as int) == self@);
        acc
    }
}

} // verus!
