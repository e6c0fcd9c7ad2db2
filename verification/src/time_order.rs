//! The order of timestamps: earlier before later, and at one instant the
//! smaller offset first.

use crate::time::Time;
use core::cmp::Ordering;
use vstd::prelude::*;
use vstd::std_specs::cmp::{PartialOrdSpec, PartialOrdSpecImpl};

verus! {

impl PartialOrd for Time {
    fn partial_cmp(&self, other: &Time) -> (order: Option<Ordering>) {
        if self.secs < other.secs {
            Some(Ordering::Less)
        } else if self.secs > other.secs {
            Some(Ordering::Greater)
        } else if self.offset < other.offset {
            Some(Ordering::Less)
        } else if self.offset > other.offset {
            Some(Ordering::Greater)
        } else {
            Some(Ordering::Equal)
        }
    }
}

impl PartialOrdSpecImpl for Time {
    open spec fn obeys_partial_cmp_spec() -> bool {
        true
    }

    open spec fn partial_cmp_spec(&self, other: &Time) -> Option<Ordering> {
        if self.secs < other.secs {
            Some(Ordering::Less)
        } else if self.secs > other.secs {
            Some(Ordering::Greater)
        } else if self.offset < other.offset {
            Some(Ordering::Less)
        } else if self.offset > other.offset {
            Some(Ordering::Greater)
        } else {
            Some(Ordering::Equal)
        }
    }
}

/// Timestamps taken with one offset are ordered by their seconds alone.
pub proof fn lemma_order_by_seconds(earlier: Time, later: Time)
    requires
        earlier.offset == later.offset,
    ensures
        PartialOrdSpec::partial_cmp_spec(&earlier, &later) == Some(Ordering::Less)
            <==> earlier.secs < later.secs,
        PartialOrdSpec::partial_cmp_spec(&earlier, &later) == Some(Ordering::Equal)
            <==> earlier == later,
        PartialOrdSpec::partial_cmp_spec(&earlier, &later) == Some(Ordering::Greater)
            <==> earlier.secs > later.secs,
{
}

/// Whether `first` was taken before `second`.
pub fn is_before(first: &Time, second: &Time) -> (before: bool)
    ensures
        before == (first.secs < second.secs || (first.secs == second.secs && first.offset
            < second.offset)),
{
    first < second
}

} // verus!
