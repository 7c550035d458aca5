use vstd::prelude::*;

use crate::epoch::Epoch;
use crate::scale::{TAI, UTC};
use crate::time_delta::TimeDelta;

verus! {

/// The view of an optional duration.
pub open spec fn delta_view<S>(d: Option<TimeDelta<S>>) -> Option<int> {
    match d {
        Some(x) => Some(x@),
        None => None,
    }
}

/// An Earth orientation provider.
///
/// Many reference organisations publish Earth Orientation Parameters
/// together with the leap seconds in effect. A provider answers, for an
/// instant, how far TAI is ahead of UTC, or that it has no data there.
///
/// The answer is a function of the instant, stated by the two spec
/// functions below.
pub trait Provider {
    /// TAI - UTC, in nanoseconds, at the UTC instant whose view is `t`.
    spec fn tai_utc_at_utc(&self, t: int) -> Option<int>;

    /// TAI - UTC, in nanoseconds, at the TAI instant whose view is `t`.
    spec fn tai_utc_at_tai(&self, t: int) -> Option<int>;

    /// Return TAI - UTC for the given UTC [Epoch].
    ///
    /// Returns `None` if data for this epoch is not available.
    fn tai_utc_for_utc(&self, epoch: &Epoch<UTC>) -> (r: Option<TimeDelta<TAI>>)
        ensures
            delta_view(r) == self.tai_utc_at_utc(epoch@),
    ;

    /// Return TAI - UTC for the given TAI [Epoch].
    ///
    /// Returns `None` if data for this epoch is not available.
    fn tai_utc_for_tai(&self, epoch: &Epoch<TAI>) -> (r: Option<TimeDelta<TAI>>)
        ensures
            delta_view(r) == self.tai_utc_at_tai(epoch@),
    ;
}

/// An empty Earth orientation provider.
///
/// It has no data for any instant. It serves as the provider argument of
/// conversions that do not need orientation data.
#[derive(Clone, Copy, Debug, PartialEq, Eq, Hash)]
pub struct EmptyProvider;

impl Provider for EmptyProvider {
    open spec fn tai_utc_at_utc(&self, t: int) -> Option<int> {
        None
    }

    open spec fn tai_utc_at_tai(&self, t: int) -> Option<int> {
        None
    }

    fn tai_utc_for_utc(&self, _epoch: &Epoch<UTC>) -> (r: Option<TimeDelta<TAI>>) {
        None
    }

    fn tai_utc_for_tai(&self, _epoch: &Epoch<TAI>) -> (r: Option<TimeDelta<TAI>>) {
        None
    }
}

} // verus!
