use vstd::prelude::*;

use crate::time_delta::{nanos_in_range, order_of, TimeDelta};

verus! {

/// A specific instant in time, measured in a specific scale.
///
/// The instant is held as the duration since January 1, 1900 at 00:00,
/// read *in its own scale*: 1900-01-01 00:00 TAI and 1900-01-01 00:00 TT
/// are both the zero duration. Its view is that duration in nanoseconds.
#[derive(Debug, Hash, Ord)]
pub struct Epoch<S> {
    delta: TimeDelta<S>,
}

impl<S> View for Epoch<S> {
    type V = int;

    closed spec fn view(&self) -> int {
        self.delta@
    }
}

/// The view of an optional instant.
pub open spec fn epoch_view<S>(e: Option<Epoch<S>>) -> Option<int> {
    match e {
        Some(x) => Some(x@),
        None => None,
    }
}

impl<S> Epoch<S> {
    /// The instant whose view is `n`.
    pub closed spec fn from_nanos_spec(n: int) -> Epoch<S> {
        Epoch { delta: TimeDelta::from_nanos_spec(n) }
    }

    /// Every instant lies within the range that a [TimeDelta] can hold.
    pub proof fn lemma_in_range(&self)
        ensures
            nanos_in_range(self@),
    {
        self.delta.lemma_in_range();
    }

    /// The instant `delta` after 1900-01-01 00:00 in this scale.
    pub fn from_frameshift(delta: TimeDelta<S>) -> (r: Self)
        ensures
            r@ == delta@,
            delta == TimeDelta::<S>::from_nanos_spec(delta@) ==> r == Self::from_nanos_spec(delta@),
    {
        Epoch { delta }
    }

    /// The duration since 1900-01-01 00:00 in this scale.
    pub fn to_frameshift(&self) -> (r: TimeDelta<S>)
        ensures
            r@ == self@,
    {
        self.delta
    }

    /// Reinterprets the instant in another scale, keeping its count.
    ///
    /// This is only meaningful where the two scales are known to agree;
    /// conversions build on it after applying the offset between them.
    pub(crate) fn transmute<T>(&self) -> (r: Epoch<T>)
        ensures
            r@ == self@,
    {
        Epoch::from_frameshift(self.delta.transmute())
    }

    /// The instant `delta` later, or `None` when it cannot be held.
    pub fn checked_add(&self, delta: &TimeDelta<S>) -> (r: Option<Self>)
        ensures
            r is Some <==> nanos_in_range(self@ + delta@),
            r matches Some(e) ==> e@ == self@ + delta@,
    {
        match self.delta.checked_add(delta) {
            Some(d) => Some(Epoch { delta: d }),
            None => None,
        }
    }

    /// The instant `delta` earlier, or `None` when it cannot be held.
    pub fn checked_sub(&self, delta: &TimeDelta<S>) -> (r: Option<Self>)
        ensures
            r is Some <==> nanos_in_range(self@ - delta@),
            r matches Some(e) ==> e@ == self@ - delta@,
    {
        match self.delta.checked_sub(delta) {
            Some(d) => Some(Epoch { delta: d }),
            None => None,
        }
    }
}

impl<S> Clone for Epoch<S> {
    fn clone(&self) -> (r: Self)
        ensures
            r == *self,
    {
        *self
    }
}

impl<S> Copy for Epoch<S> {

}

impl<S> Default for Epoch<S> {
    fn default() -> (r: Self)
        ensures
            r@ == 0,
    {
        Epoch { delta: TimeDelta::zero() }
    }
}

impl<S> PartialEq for Epoch<S> {
    fn eq(&self, other: &Self) -> (r: bool) {
        self.delta.to_nanos() == other.delta.to_nanos()
    }
}

impl<S> vstd::std_specs::cmp::PartialEqSpecImpl for Epoch<S> {
    open spec fn obeys_eq_spec() -> bool {
        true
    }

    open spec fn eq_spec(&self, other: &Self) -> bool {
        self@ == other@
    }
}

impl<S> Eq for Epoch<S> {

}

impl<S> PartialOrd for Epoch<S> {
    fn partial_cmp(&self, other: &Self) -> (r: Option<core::cmp::Ordering>) {
        self.delta.partial_cmp(&other.delta)
    }
}

impl<S> vstd::std_specs::cmp::PartialOrdSpecImpl for Epoch<S> {
    open spec fn obeys_partial_cmp_spec() -> bool {
        true
    }

    open spec fn partial_cmp_spec(&self, other: &Self) -> Option<core::cmp::Ordering> {
        Some(order_of(self@, other@))
    }
}

impl<S> core::ops::Add<TimeDelta<S>> for Epoch<S> {
    type Output = Self;

    fn add(self, rhs: TimeDelta<S>) -> (r: Self)
        ensures
            r@ == self@ + rhs@,
    {
        Epoch { delta: self.delta + rhs }
    }
}

impl<S> vstd::std_specs::ops::AddSpecImpl<TimeDelta<S>> for Epoch<S> {
    open spec fn obeys_add_spec() -> bool {
        true
    }

    open spec fn add_req(self, rhs: TimeDelta<S>) -> bool {
        nanos_in_range(self@ + rhs@)
    }

    open spec fn add_spec(self, rhs: TimeDelta<S>) -> Self {
        Self::from_nanos_spec(self@ + rhs@)
    }
}

impl<S> core::ops::Sub<TimeDelta<S>> for Epoch<S> {
    type Output = Self;

    fn sub(self, rhs: TimeDelta<S>) -> (r: Self)
        ensures
            r@ == self@ - rhs@,
    {
        Epoch { delta: self.delta - rhs }
    }
}

impl<S> vstd::std_specs::ops::SubSpecImpl<TimeDelta<S>> for Epoch<S> {
    open spec fn obeys_sub_spec() -> bool {
        true
    }

    open spec fn sub_req(self, rhs: TimeDelta<S>) -> bool {
        nanos_in_range(self@ - rhs@)
    }

    open spec fn sub_spec(self, rhs: TimeDelta<S>) -> Self {
        Self::from_nanos_spec(self@ - rhs@)
    }
}

impl<S> core::ops::Sub for Epoch<S> {
    type Output = TimeDelta<S>;

    fn sub(self, rhs: Self) -> (r: TimeDelta<S>)
        ensures
            r@ == self@ - rhs@,
    {
        self.delta - rhs.delta
    }
}

impl<S> vstd::std_specs::ops::SubSpecImpl for Epoch<S> {
    open spec fn obeys_sub_spec() -> bool {
        true
    }

    open spec fn sub_req(self, rhs: Self) -> bool {
        nanos_in_range(self@ - rhs@)
    }

    open spec fn sub_spec(self, rhs: Self) -> TimeDelta<S> {
        TimeDelta::from_nanos_spec(self@ - rhs@)
    }
}

} // verus!
