//! Physical unit types with dimensionally-safe arithmetic.
//!
//! Only the integer-backed time quantity lives here; each operation states
//! exactly which quantity it yields, so no two unit types can be combined
//! except through the conversions defined on them.

use vstd::prelude::*;

verus! {

/// A length of time in milliseconds, stored as a signed 64-bit count.
///
/// `Millis` supports basic arithmetic, so "negative time" is possible: values
/// are elapsed deltas, not wall-clock readings. Addition and subtraction wrap
/// on overflow (two's-complement modular arithmetic); that is the one overflow
/// policy this library commits to, and it is what makes the add/sub round
/// trip below hold for every pair of times.
#[derive(Clone, Copy, Debug, PartialEq, Eq, Structural, PartialOrd, Ord)]
pub struct Millis(pub i64);

impl Millis {
    /// What addition of two times means: the wrapped sum of the two counts.
    pub open spec fn spec_add(self, rhs: Millis) -> Millis {
        Millis(vstd::wrapping::i64_specs::wrapping_add(self.0, rhs.0))
    }

    /// What subtraction of two times means: the wrapped difference.
    pub open spec fn spec_sub(self, rhs: Millis) -> Millis {
        Millis(vstd::wrapping::i64_specs::wrapping_sub(self.0, rhs.0))
    }

    /// `Time + Time -> Time`.
    pub fn add(self, rhs: Millis) -> (r: Millis)
        ensures
            r == self.spec_add(rhs),
            i64::MIN <= self.0 + rhs.0 <= i64::MAX ==> r.0 == self.0 + rhs.0,
    {
        Millis(self.0.wrapping_add(rhs.0))
    }

    /// `Time - Time -> Time`.
    pub fn sub(self, rhs: Millis) -> (r: Millis)
        ensures
            r == self.spec_sub(rhs),
            i64::MIN <= self.0 - rhs.0 <= i64::MAX ==> r.0 == self.0 - rhs.0,
    {
        Millis(self.0.wrapping_sub(rhs.0))
    }
}

/// Law: adding a time and then subtracting that same time gives back the
/// original time, for every pair of times (wrapping makes this total).
pub proof fn lemma_add_sub_round_trip(t1: Millis, t2: Millis)
    ensures
        t1.spec_add(t2).spec_sub(t2) == t1,
{
}

/// An animation frame index.
pub type Frame = u64;

/// A frame rate in frames per second.
pub type Fps = u64;

} // verus!
