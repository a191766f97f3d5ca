//! Price intervals.

use vstd::prelude::*;

use crate::decimal::DecV;
use crate::decimal::Decimal;

verus! {

/// A two-point interval. The endpoints carry no ordering requirement:
/// `min`/`max` resolve the order dynamically, so `Range(a, b)` and
/// `Range(b, a)` describe the same interval.
#[derive(Debug, Clone, Copy, PartialEq)]
pub struct Range<T>(pub T, pub T);

impl Range<Decimal> {
    /// The smaller endpoint, as stored.
    pub open spec fn spec_min(self) -> DecV {
        if self.0@.v() < self.1@.v() {
            self.0@
        } else {
            self.1@
        }
    }

    /// The larger endpoint, as stored.
    pub open spec fn spec_max(self) -> DecV {
        if self.0@.v() < self.1@.v() {
            self.1@
        } else {
            self.0@
        }
    }

    /// Containment is inclusive at both bounds: the interval is
    /// `[min, max]`.
    pub open spec fn spec_contains(self, x: int) -> bool {
        self.spec_min().v() <= x <= self.spec_max().v()
    }

    /// The smaller of the two endpoints.
    pub fn min(&self) -> (r: &Decimal)
        ensures
            r@ == self.spec_min(),
    {
        if self.0.lt(&self.1) {
            &self.0
        } else {
            &self.1
        }
    }

    /// The larger of the two endpoints.
    pub fn max(&self) -> (r: &Decimal)
        ensures
            r@ == self.spec_max(),
    {
        if self.0.lt(&self.1) {
            &self.1
        } else {
            &self.0
        }
    }

    /// Whether `value` lies within the interval, bounds included.
    pub fn is_within(&self, value: &Decimal) -> (r: bool)
        ensures
            r <==> self.spec_contains(value@.v()),
    {
        self.min().le(value) && value.le(self.max())
    }
}

/// An interval's resolved bounds are ordered, and swapping the stored order
/// of the endpoints changes neither `min` nor `max` nor containment.
pub proof fn lemma_range_order_independent(a: Decimal, b: Decimal)
    ensures
        Range(a, b).spec_min().v() <= Range(a, b).spec_max().v(),
        Range(a, b).spec_min().v() == Range(b, a).spec_min().v(),
        Range(a, b).spec_max().v() == Range(b, a).spec_max().v(),
        forall|x: int| Range(a, b).spec_contains(x) <==> Range(b, a).spec_contains(x),
{
}

} // verus!
