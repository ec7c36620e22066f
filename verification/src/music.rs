//! Music as a value: notes and rests, put one after another or on top of each
//! other.

use crate::flick::Flick;
use crate::synth::{mix, Sample, Synth};
use vstd::prelude::*;

verus! {

/// A single timed event: a note played on an instrument, or silence.
pub enum Primitive<T: Synth> {
    /// The instrument, sounding for the given time.
    Note(Flick, T),
    /// Silence for the given time.
    Rest(Flick),
}

impl<T: Synth> Primitive<T> {
    /// How long the event lasts.
    pub open spec fn span(&self) -> Flick {
        match self {
            Primitive::Note(d, _) => *d,
            Primitive::Rest(d) => *d,
        }
    }

    /// How long the event lasts.
    pub fn duration(&self) -> (d: Flick)
        ensures
            d == self.span(),
    {
        match self {
            Primitive::Note(d, _) => *d,
            Primitive::Rest(d) => *d,
        }
    }
}

impl<T: Synth> Synth for Primitive<T> {
    /// A note can be sampled after its end, and before that when its
    /// instrument can. A rest can always be sampled.
    open spec fn playable(&self, t: Flick) -> bool {
        match self {
            Primitive::Note(d, instrument) => t.0 <= d.0 ==> instrument.playable(t),
            Primitive::Rest(_) => true,
        }
    }

    /// A note sounds as its instrument does up to and including its last
    /// flick, and is silent after it. A rest is silent throughout.
    open spec fn amplitude(&self, t: Flick) -> Sample {
        match self {
            Primitive::Note(d, instrument) => if t.0 <= d.0 {
                instrument.amplitude(t)
            } else {
                0
            },
            Primitive::Rest(_) => 0,
        }
    }

    fn sample(&self, t: Flick) -> (s: Sample) {
        match self {
            Primitive::Note(d, instrument) => if t <= *d {
                instrument.sample(t)
            } else {
                0
            },
            Primitive::Rest(_) => 0,
        }
    }
}

/// A change applied to a piece of music. The number is the bit pattern of
/// the 64-bit floating-point value that the change is made with.
pub enum Control {
    /// Play faster or slower by a factor.
    Tempo(u64),
    /// Shift the pitch by a number of semitones.
    Transpose(u64),
}

/// A piece of music.
pub enum Music<T: Synth> {
    /// A single event.
    Prim(Primitive<T>),
    /// Two pieces played at the same time.
    Para(Box<Music<T>>, Box<Music<T>>),
    /// Two pieces played one after the other.
    Sequence(Box<Music<T>>, Box<Music<T>>),
    /// A piece played under a change of tempo or pitch. What that sounds
    /// like is not defined: such a piece has no duration and cannot be
    /// sampled.
    Modify(Control, Box<Music<T>>),
}

impl<T: Synth> Music<T> {
    /// How long the piece lasts, in flicks: two pieces at the same time last
    /// as long as the longer one, two pieces in a row as long as both
    /// together. The number means something only for a piece without
    /// [`Music::Modify`].
    pub open spec fn span(&self) -> nat
        decreases self,
    {
        match self {
            Music::Prim(p) => p.span().0 as nat,
            Music::Para(a, b) => if a.span() >= b.span() {
                a.span()
            } else {
                b.span()
            },
            Music::Sequence(a, b) => a.span() + b.span(),
            Music::Modify(_, _) => arbitrary(),
        }
    }

    /// Whether the piece has a duration: it holds no [`Music::Modify`], and
    /// wherever two pieces stand in a row the time for both fits in 64 bits.
    pub open spec fn timed(&self) -> bool
        decreases self,
    {
        match self {
            Music::Prim(_) => true,
            Music::Para(a, b) => a.timed() && b.timed(),
            Music::Sequence(a, b) => a.timed() && b.timed() && a.span() + b.span() <= u64::MAX,
            Music::Modify(_, _) => false,
        }
    }

    /// The duration of a piece that has one fits in 64 bits.
    pub proof fn lemma_span_fits(&self)
        requires
            self.timed(),
        ensures
            self.span() <= u64::MAX,
        decreases self,
    {
        match self {
            Music::Prim(_) => {},
            Music::Para(a, b) => {
                a.lemma_span_fits();
                b.lemma_span_fits();
            },
            Music::Sequence(_, _) => {},
            Music::Modify(_, _) => {},
        }
    }

    /// How long the piece lasts.
    pub fn duration(&self) -> (d: Flick)
        requires
            self.timed(),
        ensures
            d.0 == self.span(),
        decreases self,
    {
        match self {
            Music::Prim(p) => p.duration(),
            Music::Para(a, b) => {
                let da = a.duration();
                let db = b.duration();
                if da >= db {
                    da
                } else {
                    db
                }
            },
            Music::Sequence(a, b) => a.duration() + b.duration(),
            Music::Modify(_, _) => unreached(),
        }
    }
}

impl<T: Synth> Synth for Music<T> {
    /// A single event can be sampled when the event can, and two pieces at
    /// the same time when both can. Of two pieces in a row the first must
    /// have a duration, and the one that sounds at `t` must be one that can
    /// be sampled then. A piece under a change cannot be sampled.
    open spec fn playable(&self, t: Flick) -> bool
        decreases self,
    {
        match self {
            Music::Prim(p) => p.playable(t),
            Music::Para(a, b) => a.playable(t) && b.playable(t),
            Music::Sequence(a, b) => a.timed() && if t.0 <= a.span() {
                a.playable(t)
            } else {
                b.playable(Flick((t.0 - a.span()) as u64))
            },
            Music::Modify(_, _) => false,
        }
    }

    /// Two pieces at the same time are mixed. Of two pieces in a row the
    /// first sounds up to and including the flick at which it ends, and the
    /// second after that, its own time starting where the first ended.
    open spec fn amplitude(&self, t: Flick) -> Sample
        decreases self,
    {
        match self {
            Music::Prim(p) => p.amplitude(t),
            Music::Para(a, b) => mix(a.amplitude(t), b.amplitude(t)),
            Music::Sequence(a, b) => if t.0 <= a.span() {
                a.amplitude(t)
            } else {
                b.amplitude(Flick((t.0 - a.span()) as u64))
            },
            Music::Modify(_, _) => arbitrary(),
        }
    }

    fn sample(&self, t: Flick) -> (s: Sample)
        decreases self,
    {
        match self {
            Music::Prim(p) => p.sample(t),
            Music::Para(a, b) => a.sample(t).saturating_add(b.sample(t)),
            Music::Sequence(a, b) => {
                let t1 = a.duration();
                if t <= t1 {
                    a.sample(t)
                } else {
                    b.sample(t - t1)
                }
            },
            Music::Modify(_, _) => unreached(),
        }
    }
}

/// Two pieces in a row last as long as both together.
pub proof fn lemma_sequence_span<T: Synth>(a: Music<T>, b: Music<T>)
    ensures
        Music::Sequence(Box::new(a), Box::new(b)).span() == a.span() + b.span(),
{
}

/// Two pieces at the same time last as long as the longer of them.
pub proof fn lemma_para_span<T: Synth>(a: Music<T>, b: Music<T>)
    ensures
        Music::Para(Box::new(a), Box::new(b)).span() == vstd::math::max(
            a.span() as int,
            b.span() as int,
        ),
{
}

/// A note still sounds as its instrument does at the flick at which it ends,
/// and is silent one flick later.
pub proof fn lemma_note_end<T: Synth>(d: Flick, instrument: T)
    requires
        d.0 < u64::MAX,
    ensures
        Primitive::Note(d, instrument).amplitude(d) == instrument.amplitude(d),
        Primitive::Note(d, instrument).amplitude(Flick((d.0 + 1) as u64)) == 0,
{
}

/// Of two pieces in a row, the flick at which the first ends still belongs
/// to the first; one flick later the second sounds, at its own first flick.
pub proof fn lemma_sequence_handover<T: Synth>(a: Music<T>, b: Music<T>, end: Flick)
    requires
        a.span() == end.0,
        end.0 < u64::MAX,
    ensures
        Music::Sequence(Box::new(a), Box::new(b)).amplitude(end) == a.amplitude(end),
        Music::Sequence(Box::new(a), Box::new(b)).amplitude(Flick((end.0 + 1) as u64))
            == b.amplitude(Flick(1)),
{
}

} // verus!
