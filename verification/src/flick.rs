//! The flick, a unit of time that divides evenly by common audio and video
//! frame rates.
//!
//! Time is counted in whole flicks, so that sums of durations are exact no
//! matter how long a session runs.

use std::cmp::Ordering;
use std::ops::{Add, AddAssign, Sub, SubAssign};
use vstd::prelude::*;
use vstd::std_specs::cmp::PartialOrdSpec;
use vstd::std_specs::ops::{AddSpec, SubSpec};

verus! {

/// Number of flicks in one second.
pub const FLICKS_PER_SECOND: u64 = 705_600_000;

/// Number of nanoseconds in one second.
pub const NANOS_PER_SECOND: u64 = 1_000_000_000;

/// A point in time, or a span of time, counted in flicks.
#[derive(Copy, Clone, PartialEq, Eq, Structural, Ord, Hash, Debug)]
pub struct Flick(pub u64);

/// The number of whole flicks in `nanos` nanoseconds: 7056 flicks make
/// 10000 nanoseconds, and a started flick does not count.
pub open spec fn flicks_in_nanos(nanos: nat) -> nat {
    nanos * 7056 / 10_000
}

impl Flick {
    /// Converts a count of nanoseconds, rounding down to a whole flick.
    pub fn from_nanoseconds(nanos: u64) -> (r: Flick)
        ensures
            r.0 == flicks_in_nanos(nanos as nat),
            r.0 * 10_000 <= nanos * 7056 < (r.0 + 1) * 10_000,
    {
        let wide: u128 = (nanos as u128) * 7056 / 10_000;
        Flick(wide as u64)
    }

    /// The nanoseconds in a span given as whole seconds and the nanoseconds
    /// of the started second.
    fn nanoseconds_in(secs: u64, subsec_nanos: u32) -> (nanos: u128)
        ensures
            nanos == secs * NANOS_PER_SECOND + subsec_nanos,
            nanos * 7056 <= u128::MAX,
    {
        let whole: u128 = (secs as u128) * 1_000_000_000;
        whole + (subsec_nanos as u128)
    }

    /// Whether a span given as whole seconds and the nanoseconds of the
    /// started second is a number of flicks that fits in 64 bits. Spans of
    /// up to eight hundred years are.
    pub fn duration_fits(secs: u64, subsec_nanos: u32) -> (ok: bool)
        ensures
            ok == (flicks_in_nanos((secs * NANOS_PER_SECOND + subsec_nanos) as nat) <= u64::MAX),
    {
        let nanos: u128 = Flick::nanoseconds_in(secs, subsec_nanos);
        nanos * 7056 / 10_000 <= u64::MAX as u128
    }

    /// Converts a span given as whole seconds and the nanoseconds of the
    /// started second, rounding down to a whole flick. The two parts are
    /// joined before the conversion, so nothing below a second is lost.
    pub fn from_duration(secs: u64, subsec_nanos: u32) -> (r: Flick)
        requires
            flicks_in_nanos((secs * NANOS_PER_SECOND + subsec_nanos) as nat) <= u64::MAX,
        ensures
            r.0 == flicks_in_nanos((secs * NANOS_PER_SECOND + subsec_nanos) as nat),
    {
        let nanos: u128 = Flick::nanoseconds_in(secs, subsec_nanos);
        let wide: u128 = nanos * 7056 / 10_000;
        if wide <= u64::MAX as u128 {
            Flick(wide as u64)
        } else {
            unreached()
        }
    }
}

impl Default for Flick {
    /// The start of time.
    fn default() -> (r: Flick)
        ensures
            r.0 == 0,
    {
        Flick(0)
    }
}

impl vstd::std_specs::cmp::PartialOrdSpecImpl for Flick {
    open spec fn obeys_partial_cmp_spec() -> bool {
        true
    }

    open spec fn partial_cmp_spec(&self, other: &Flick) -> Option<Ordering> {
        if self.0 < other.0 {
            Some(Ordering::Less)
        } else if self.0 == other.0 {
            Some(Ordering::Equal)
        } else {
            Some(Ordering::Greater)
        }
    }
}

impl PartialOrd for Flick {
    /// Flicks are ordered as their counts are.
    fn partial_cmp(&self, other: &Flick) -> (r: Option<Ordering>) {
        if self.0 < other.0 {
            Some(Ordering::Less)
        } else if self.0 == other.0 {
            Some(Ordering::Equal)
        } else {
            Some(Ordering::Greater)
        }
    }
}

impl vstd::std_specs::ops::AddSpecImpl<Flick> for Flick {
    open spec fn obeys_add_spec() -> bool {
        true
    }

    open spec fn add_req(self, rhs: Flick) -> bool {
        self.0 + rhs.0 <= u64::MAX
    }

    open spec fn add_spec(self, rhs: Flick) -> Flick {
        Flick((self.0 + rhs.0) as u64)
    }
}

impl Add<Flick> for Flick {
    type Output = Flick;

    /// The sum of two spans, which has to fit in 64 bits. The sum is
    /// checked: a caller that Verus has not held to this stops here rather
    /// than going on with a wrapped time.
    fn add(self, rhs: Flick) -> (r: Flick)
        ensures
            r.0 == self.0 + rhs.0,
    {
        match self.0.checked_add(rhs.0) {
            Some(sum) => Flick(sum),
            None => unreached(),
        }
    }
}

impl AddAssign<Flick> for Flick {
    /// Moves this time forward by `rhs`. The sum has to fit in 64 bits.
    fn add_assign(&mut self, rhs: Flick)
        requires
            old(self).0 + rhs.0 <= u64::MAX,
        ensures
            final(self).0 == old(self).0 + rhs.0,
    {
        *self = *self + rhs;
    }
}

impl vstd::std_specs::ops::SubSpecImpl<Flick> for Flick {
    open spec fn obeys_sub_spec() -> bool {
        true
    }

    open spec fn sub_req(self, rhs: Flick) -> bool {
        rhs.0 <= self.0
    }

    open spec fn sub_spec(self, rhs: Flick) -> Flick {
        Flick((self.0 - rhs.0) as u64)
    }
}

impl Sub<Flick> for Flick {
    type Output = Flick;

    /// The span from `rhs` to this time. `rhs` must not lie after it; the
    /// difference is checked as the sum is.
    fn sub(self, rhs: Flick) -> (r: Flick)
        ensures
            r.0 == self.0 - rhs.0,
    {
        match self.0.checked_sub(rhs.0) {
            Some(difference) => Flick(difference),
            None => unreached(),
        }
    }
}

impl SubAssign<Flick> for Flick {
    /// Moves this time back by `rhs`, which must not exceed it.
    fn sub_assign(&mut self, rhs: Flick)
        requires
            rhs.0 <= old(self).0,
        ensures
            final(self).0 == old(self).0 - rhs.0,
    {
        *self = *self - rhs;
    }
}

/// Any two times are ordered: one is earlier, or they are the same, or one is
/// later, as their counts say.
pub proof fn lemma_order_is_total(a: Flick, b: Flick)
    ensures
        a.partial_cmp_spec(&b) == Some(Ordering::Less) <==> a.0 < b.0,
        a.partial_cmp_spec(&b) == Some(Ordering::Equal) <==> a == b,
        a.partial_cmp_spec(&b) == Some(Ordering::Greater) <==> a.0 > b.0,
        a.partial_cmp_spec(&b) is Some,
{
}

/// Taking a span away and putting it back gives the time one started from.
pub proof fn lemma_sub_then_add(a: Flick, b: Flick)
    requires
        a.0 >= b.0,
    ensures
        a.sub_req(b),
        a.sub_spec(b).add_req(b),
        a.sub_spec(b).add_spec(b) == a,
{
}

} // verus!
