use vstd::prelude::*;

use crate::epoch::{epoch_view, Epoch};
use crate::provider::{EmptyProvider, Provider};
use crate::time_delta::{nanos_in_range, TimeDelta, NANOS_PER_MILLI};

verus! {

/// A timescale in which to measure [Epoch]s and [TimeDelta]s.
pub trait Scale {
    /// The name of this timescale.
    fn name() -> &'static str;
}

/// International Atomic Time (*temps atomique international*).
#[derive(Clone, Copy, Debug, PartialEq, Eq, PartialOrd, Ord, Hash)]
pub struct TAI;

impl Scale for TAI {
    fn name() -> (r: &'static str)
        ensures
            r@ == seq!['T', 'A', 'I'],
    {
        proof {
            reveal_strlit("TAI");
        }
        assert("TAI"@ =~= seq!['T', 'A', 'I']);
        "TAI"
    }
}

/// Terrestrial Time.
#[derive(Clone, Copy, Debug, PartialEq, Eq, PartialOrd, Ord, Hash)]
pub struct TT;

impl Scale for TT {
    fn name() -> (r: &'static str)
        ensures
            r@ == seq!['T', 'T'],
    {
        proof {
            reveal_strlit("TT");
        }
        assert("TT"@ =~= seq!['T', 'T']);
        "TT"
    }
}

/// GPS Time.
#[derive(Clone, Copy, Debug, PartialEq, Eq, PartialOrd, Ord, Hash)]
pub struct GPS;

impl Scale for GPS {
    fn name() -> (r: &'static str)
        ensures
            r@ == seq!['G', 'P', 'S'],
    {
        proof {
            reveal_strlit("GPS");
        }
        assert("GPS"@ =~= seq!['G', 'P', 'S']);
        "GPS"
    }
}

/// Coordinated Universal Time.
#[derive(Clone, Copy, Debug, PartialEq, Eq, PartialOrd, Ord, Hash)]
pub struct UTC;

impl Scale for UTC {
    fn name() -> (r: &'static str)
        ensures
            r@ == seq!['U', 'T', 'C'],
    {
        proof {
            reveal_strlit("UTC");
        }
        assert("UTC"@ =~= seq!['U', 'T', 'C']);
        "UTC"
    }
}

/// Universal Time, the scale that follows the Earth's rotation.
#[derive(Clone, Copy, Debug, PartialEq, Eq, PartialOrd, Ord, Hash)]
pub struct UT1;

impl Scale for UT1 {
    fn name() -> (r: &'static str)
        ensures
            r@ == seq!['U', 'T', '1'],
    {
        proof {
            reveal_strlit("UT1");
        }
        assert("UT1"@ =~= seq!['U', 'T', '1']);
        "UT1"
    }
}

/// TT - TAI, in nanoseconds: 32.184 s.
pub open spec fn tt_tai_nanos() -> int {
    32_184_000_000
}

/// GPS - TAI, in nanoseconds: -19 s.
pub open spec fn gps_tai_nanos() -> int {
    -19_000_000_000
}

/// An instant moved by `off` nanoseconds, or `None` when the result cannot
/// be held (or there was no instant to begin with).
pub open spec fn shifted(t: Option<int>, off: int) -> Option<int> {
    match t {
        Some(x) => if nanos_in_range(x + off) {
            Some(x + off)
        } else {
            None
        },
        None => None,
    }
}

/// TAI - UTC as a provider gives it for UTC instants.
pub open spec fn at_utc_of<P: Provider>(p: &P) -> spec_fn(int) -> Option<int> {
    |t: int| p.tai_utc_at_utc(t)
}

/// TAI - UTC as a provider gives it for TAI instants.
pub open spec fn at_tai_of<P: Provider>(p: &P) -> spec_fn(int) -> Option<int> {
    |t: int| p.tai_utc_at_tai(t)
}

/// The TAI instant of the UTC instant `t`, by the leap offsets `at_utc`.
pub open spec fn tai_of_utc(at_utc: spec_fn(int) -> Option<int>, t: Option<int>) -> Option<int> {
    match t {
        Some(x) => match at_utc(x) {
            Some(d) => shifted(Some(x), d),
            None => None,
        },
        None => None,
    }
}

/// The UTC instant of the TAI instant `t`, by the leap offsets `at_tai`.
pub open spec fn utc_of_tai(at_tai: spec_fn(int) -> Option<int>, t: Option<int>) -> Option<int> {
    match t {
        Some(x) => match at_tai(x) {
            Some(d) => shifted(Some(x), -d),
            None => None,
        },
        None => None,
    }
}

/// Convert an [Epoch] from one [Scale] to another, using an Earth
/// orientation [Provider].
///
/// The resulting [Epoch] represents the same moment in time as the
/// one it started from. `None` means that the provider had no data, or that the
/// result cannot be held.
pub trait ToScaleWith<Other>: Sized {
    /// The view of the converted instant, where `at_utc` and `at_tai`
    /// give TAI - UTC as [Provider::tai_utc_at_utc] and
    /// [Provider::tai_utc_at_tai] do.
    spec fn converts_with(
        &self,
        at_utc: spec_fn(int) -> Option<int>,
        at_tai: spec_fn(int) -> Option<int>,
    ) -> Option<int>;

    /// Convert the given [Epoch] into a new [Scale].
    fn to_scale_with<P: Provider>(&self, provider: &P) -> (r: Option<Epoch<Other>>)
        ensures
            epoch_view(r) == self.converts_with(at_utc_of(provider), at_tai_of(provider)),
    ;
}

/// Convert an [Epoch] from one [Scale] to another without a provider.
///
/// Implementing this is a promise that [ToScaleWith] does not use the
/// provider, and returns `Some` wherever [ToScale::convertible] holds.
pub trait ToScale<Other>: ToScaleWith<Other> {
    /// Whether the converted instant can be held.
    spec fn convertible(&self) -> bool;

    /// The view of the converted instant.
    spec fn converts(&self) -> int;

    /// The provider plays no part in the conversion.
    proof fn lemma_provider_free(
        &self,
        at_utc: spec_fn(int) -> Option<int>,
        at_tai: spec_fn(int) -> Option<int>,
    )
        requires
            self.convertible(),
        ensures
            self.converts_with(at_utc, at_tai) == Some(self.converts()),
    ;

    /// Convert the given [Epoch] into a new [Scale].
    fn to_scale(&self) -> (r: Epoch<Other>)
        requires
            self.convertible(),
        ensures
            r@ == self.converts(),
    ;
}

// identity
impl<S> ToScaleWith<S> for Epoch<S> {
    open spec fn converts_with(
        &self,
        at_utc: spec_fn(int) -> Option<int>,
        at_tai: spec_fn(int) -> Option<int>,
    ) -> Option<int> {
        Some(self@)
    }

    fn to_scale_with<P: Provider>(&self, _provider: &P) -> (r: Option<Epoch<S>>) {
        Some(*self)
    }
}

impl<S> ToScale<S> for Epoch<S> {
    open spec fn convertible(&self) -> bool {
        true
    }

    open spec fn converts(&self) -> int {
        self@
    }

    proof fn lemma_provider_free(
        &self,
        at_utc: spec_fn(int) -> Option<int>,
        at_tai: spec_fn(int) -> Option<int>,
    ) {
    }

    fn to_scale(&self) -> (r: Epoch<S>) {
        *self
    }
}

fn tt_tai_offset() -> (r: TimeDelta<TT>)
    ensures
        r@ == tt_tai_nanos(),
{
    TimeDelta::new(32, 184 * NANOS_PER_MILLI).unwrap()
}

fn gps_tai_offset() -> (r: TimeDelta<GPS>)
    ensures
        r@ == gps_tai_nanos(),
{
    TimeDelta::new(-19, 0).unwrap()
}

impl ToScaleWith<TT> for Epoch<TAI> {
    open spec fn converts_with(
        &self,
        at_utc: spec_fn(int) -> Option<int>,
        at_tai: spec_fn(int) -> Option<int>,
    ) -> Option<int> {
        shifted(Some(self@), tt_tai_nanos())
    }

    fn to_scale_with<P: Provider>(&self, _provider: &P) -> (r: Option<Epoch<TT>>) {
        self.transmute::<TT>().checked_add(&tt_tai_offset())
    }
}

impl ToScale<TT> for Epoch<TAI> {
    open spec fn convertible(&self) -> bool {
        nanos_in_range(self@ + tt_tai_nanos())
    }

    open spec fn converts(&self) -> int {
        self@ + tt_tai_nanos()
    }

    proof fn lemma_provider_free(
        &self,
        at_utc: spec_fn(int) -> Option<int>,
        at_tai: spec_fn(int) -> Option<int>,
    ) {
    }

    fn to_scale(&self) -> (r: Epoch<TT>) {
        self.to_scale_with(&EmptyProvider).unwrap()
    }
}

impl ToScaleWith<TAI> for Epoch<TT> {
    open spec fn converts_with(
        &self,
        at_utc: spec_fn(int) -> Option<int>,
        at_tai: spec_fn(int) -> Option<int>,
    ) -> Option<int> {
        shifted(Some(self@), -tt_tai_nanos())
    }

    fn to_scale_with<P: Provider>(&self, _provider: &P) -> (r: Option<Epoch<TAI>>) {
        match self.checked_sub(&tt_tai_offset()) {
            Some(e) => Some(e.transmute()),
            None => None,
        }
    }
}

impl ToScale<TAI> for Epoch<TT> {
    open spec fn convertible(&self) -> bool {
        nanos_in_range(self@ - tt_tai_nanos())
    }

    open spec fn converts(&self) -> int {
        self@ - tt_tai_nanos()
    }

    proof fn lemma_provider_free(
        &self,
        at_utc: spec_fn(int) -> Option<int>,
        at_tai: spec_fn(int) -> Option<int>,
    ) {
    }

    fn to_scale(&self) -> (r: Epoch<TAI>) {
        self.to_scale_with(&EmptyProvider).unwrap()
    }
}

impl ToScaleWith<GPS> for Epoch<TAI> {
    open spec fn converts_with(
        &self,
        at_utc: spec_fn(int) -> Option<int>,
        at_tai: spec_fn(int) -> Option<int>,
    ) -> Option<int> {
        shifted(Some(self@), gps_tai_nanos())
    }

    fn to_scale_with<P: Provider>(&self, _provider: &P) -> (r: Option<Epoch<GPS>>) {
        self.transmute::<GPS>().checked_add(&gps_tai_offset())
    }
}

impl ToScale<GPS> for Epoch<TAI> {
    open spec fn convertible(&self) -> bool {
        nanos_in_range(self@ + gps_tai_nanos())
    }

    open spec fn converts(&self) -> int {
        self@ + gps_tai_nanos()
    }

    proof fn lemma_provider_free(
        &self,
        at_utc: spec_fn(int) -> Option<int>,
        at_tai: spec_fn(int) -> Option<int>,
    ) {
    }

    fn to_scale(&self) -> (r: Epoch<GPS>) {
        self.to_scale_with(&EmptyProvider).unwrap()
    }
}

impl ToScaleWith<TAI> for Epoch<GPS> {
    open spec fn converts_with(
        &self,
        at_utc: spec_fn(int) -> Option<int>,
        at_tai: spec_fn(int) -> Option<int>,
    ) -> Option<int> {
        shifted(Some(self@), -gps_tai_nanos())
    }

    fn to_scale_with<P: Provider>(&self, _provider: &P) -> (r: Option<Epoch<TAI>>) {
        match self.checked_sub(&gps_tai_offset()) {
            Some(e) => Some(e.transmute()),
            None => None,
        }
    }
}

impl ToScale<TAI> for Epoch<GPS> {
    open spec fn convertible(&self) -> bool {
        nanos_in_range(self@ - gps_tai_nanos())
    }

    open spec fn converts(&self) -> int {
        self@ - gps_tai_nanos()
    }

    proof fn lemma_provider_free(
        &self,
        at_utc: spec_fn(int) -> Option<int>,
        at_tai: spec_fn(int) -> Option<int>,
    ) {
    }

    fn to_scale(&self) -> (r: Epoch<TAI>) {
        self.to_scale_with(&EmptyProvider).unwrap()
    }
}

// TT and GPS reach each other through TAI
impl ToScaleWith<GPS> for Epoch<TT> {
    open spec fn converts_with(
        &self,
        at_utc: spec_fn(int) -> Option<int>,
        at_tai: spec_fn(int) -> Option<int>,
    ) -> Option<int> {
        shifted(shifted(Some(self@), -tt_tai_nanos()), gps_tai_nanos())
    }

    fn to_scale_with<P: Provider>(&self, provider: &P) -> (r: Option<Epoch<GPS>>) {
        let middle: Epoch<TAI> = self.to_scale_with(provider)?;
        middle.to_scale_with(provider)
    }
}

impl ToScale<GPS> for Epoch<TT> {
    open spec fn convertible(&self) -> bool {
        &&& nanos_in_range(self@ - tt_tai_nanos())
        &&& nanos_in_range(self@ - tt_tai_nanos() + gps_tai_nanos())
    }

    open spec fn converts(&self) -> int {
        self@ - tt_tai_nanos() + gps_tai_nanos()
    }

    proof fn lemma_provider_free(
        &self,
        at_utc: spec_fn(int) -> Option<int>,
        at_tai: spec_fn(int) -> Option<int>,
    ) {
    }

    fn to_scale(&self) -> (r: Epoch<GPS>) {
        let middle: Epoch<TAI> = self.to_scale();
        middle.to_scale()
    }
}

impl ToScaleWith<TT> for Epoch<GPS> {
    open spec fn converts_with(
        &self,
        at_utc: spec_fn(int) -> Option<int>,
        at_tai: spec_fn(int) -> Option<int>,
    ) -> Option<int> {
        shifted(shifted(Some(self@), -gps_tai_nanos()), tt_tai_nanos())
    }

    fn to_scale_with<P: Provider>(&self, provider: &P) -> (r: Option<Epoch<TT>>) {
        let middle: Epoch<TAI> = self.to_scale_with(provider)?;
        middle.to_scale_with(provider)
    }
}

impl ToScale<TT> for Epoch<GPS> {
    open spec fn convertible(&self) -> bool {
        &&& nanos_in_range(self@ - gps_tai_nanos())
        &&& nanos_in_range(self@ - gps_tai_nanos() + tt_tai_nanos())
    }

    open spec fn converts(&self) -> int {
        self@ - gps_tai_nanos() + tt_tai_nanos()
    }

    proof fn lemma_provider_free(
        &self,
        at_utc: spec_fn(int) -> Option<int>,
        at_tai: spec_fn(int) -> Option<int>,
    ) {
    }

    fn to_scale(&self) -> (r: Epoch<TT>) {
        let middle: Epoch<TAI> = self.to_scale();
        middle.to_scale()
    }
}

// UTC and TAI differ by the leap seconds, which only a provider knows
impl ToScaleWith<UTC> for Epoch<TAI> {
    open spec fn converts_with(
        &self,
        at_utc: spec_fn(int) -> Option<int>,
        at_tai: spec_fn(int) -> Option<int>,
    ) -> Option<int> {
        utc_of_tai(at_tai, Some(self@))
    }

    fn to_scale_with<P: Provider>(&self, provider: &P) -> (r: Option<Epoch<UTC>>) {
        let tai_utc = provider.tai_utc_for_tai(self)?;
        match self.checked_sub(&tai_utc) {
            Some(e) => Some(e.transmute()),
            None => None,
        }
    }
}

impl ToScaleWith<TAI> for Epoch<UTC> {
    open spec fn converts_with(
        &self,
        at_utc: spec_fn(int) -> Option<int>,
        at_tai: spec_fn(int) -> Option<int>,
    ) -> Option<int> {
        tai_of_utc(at_utc, Some(self@))
    }

    fn to_scale_with<P: Provider>(&self, provider: &P) -> (r: Option<Epoch<TAI>>) {
        let tai_utc = provider.tai_utc_for_utc(self)?;
        self.transmute::<TAI>().checked_add(&tai_utc)
    }
}

impl ToScaleWith<UTC> for Epoch<TT> {
    open spec fn converts_with(
        &self,
        at_utc: spec_fn(int) -> Option<int>,
        at_tai: spec_fn(int) -> Option<int>,
    ) -> Option<int> {
        utc_of_tai(at_tai, shifted(Some(self@), -tt_tai_nanos()))
    }

    fn to_scale_with<P: Provider>(&self, provider: &P) -> (r: Option<Epoch<UTC>>) {
        let middle: Epoch<TAI> = self.to_scale_with(provider)?;
        middle.to_scale_with(provider)
    }
}

impl ToScaleWith<UTC> for Epoch<GPS> {
    open spec fn converts_with(
        &self,
        at_utc: spec_fn(int) -> Option<int>,
        at_tai: spec_fn(int) -> Option<int>,
    ) -> Option<int> {
        utc_of_tai(at_tai, shifted(Some(self@), -gps_tai_nanos()))
    }

    fn to_scale_with<P: Provider>(&self, provider: &P) -> (r: Option<Epoch<UTC>>) {
        let middle: Epoch<TAI> = self.to_scale_with(provider)?;
        middle.to_scale_with(provider)
    }
}

impl ToScaleWith<TT> for Epoch<UTC> {
    open spec fn converts_with(
        &self,
        at_utc: spec_fn(int) -> Option<int>,
        at_tai: spec_fn(int) -> Option<int>,
    ) -> Option<int> {
        shifted(tai_of_utc(at_utc, Some(self@)), tt_tai_nanos())
    }

    fn to_scale_with<P: Provider>(&self, provider: &P) -> (r: Option<Epoch<TT>>) {
        let middle: Epoch<TAI> = self.to_scale_with(provider)?;
        middle.to_scale_with(provider)
    }
}

impl ToScaleWith<GPS> for Epoch<UTC> {
    open spec fn converts_with(
        &self,
        at_utc: spec_fn(int) -> Option<int>,
        at_tai: spec_fn(int) -> Option<int>,
    ) -> Option<int> {
        shifted(tai_of_utc(at_utc, Some(self@)), gps_tai_nanos())
    }

    fn to_scale_with<P: Provider>(&self, provider: &P) -> (r: Option<Epoch<GPS>>) {
        let middle: Epoch<TAI> = self.to_scale_with(provider)?;
        middle.to_scale_with(provider)
    }
}

/// Converting an instant to its own scale gives it back unchanged, with or
/// without a provider.
pub proof fn lemma_identity<S>(
    e: Epoch<S>,
    at_utc: spec_fn(int) -> Option<int>,
    at_tai: spec_fn(int) -> Option<int>,
)
    ensures
        <Epoch<S> as ToScaleWith<S>>::converts_with(&e, at_utc, at_tai) == Some(e@),
        <Epoch<S> as ToScale<S>>::convertible(&e),
        <Epoch<S> as ToScale<S>>::converts(&e) == e@,
{
}

/// Converting TAI to TT and back gives the starting instant exactly,
/// statelessly and with any provider.
pub proof fn lemma_tai_tt_round_trip(
    e: Epoch<TAI>,
    m: Epoch<TT>,
    at_utc: spec_fn(int) -> Option<int>,
    at_tai: spec_fn(int) -> Option<int>,
)
    requires
        <Epoch<TAI> as ToScale<TT>>::convertible(&e),
        m@ == <Epoch<TAI> as ToScale<TT>>::converts(&e),
    ensures
        <Epoch<TAI> as ToScaleWith<TT>>::converts_with(&e, at_utc, at_tai) == Some(m@),
        <Epoch<TT> as ToScale<TAI>>::convertible(&m),
        <Epoch<TT> as ToScale<TAI>>::converts(&m) == e@,
        <Epoch<TT> as ToScaleWith<TAI>>::converts_with(&m, at_utc, at_tai) == Some(e@),
{
    e.lemma_in_range();
}

impl<S> Epoch<S> {
    /// Convert to the TAI timescale, using an orientation provider.
    pub fn to_tai_with<P: Provider>(&self, provider: &P) -> (r: Option<Epoch<TAI>>) where
        Self: ToScaleWith<TAI>,

        ensures
            epoch_view(r) == self.converts_with(at_utc_of(provider), at_tai_of(provider)),
    {
        self.to_scale_with(provider)
    }

    /// Convert to the TAI timescale, statelessly.
    pub fn to_tai(&self) -> (r: Epoch<TAI>) where Self: ToScale<TAI>
        requires
            self.convertible(),
        ensures
            r@ == self.converts(),
    {
        self.to_scale()
    }

    /// Convert to the TT timescale, using an orientation provider.
    pub fn to_tt_with<P: Provider>(&self, provider: &P) -> (r: Option<Epoch<TT>>) where
        Self: ToScaleWith<TT>,

        ensures
            epoch_view(r) == self.converts_with(at_utc_of(provider), at_tai_of(provider)),
    {
        self.to_scale_with(provider)
    }

    /// Convert to the TT timescale, statelessly.
    pub fn to_tt(&self) -> (r: Epoch<TT>) where Self: ToScale<TT>
        requires
            self.convertible(),
        ensures
            r@ == self.converts(),
    {
        self.to_scale()
    }

    /// Convert to the GPS timescale, using an orientation provider.
    pub fn to_gps_with<P: Provider>(&self, provider: &P) -> (r: Option<Epoch<GPS>>) where
        Self: ToScaleWith<GPS>,

        ensures
            epoch_view(r) == self.converts_with(at_utc_of(provider), at_tai_of(provider)),
    {
        self.to_scale_with(provider)
    }

    /// Convert to the GPS timescale, statelessly.
    pub fn to_gps(&self) -> (r: Epoch<GPS>) where Self: ToScale<GPS>
        requires
            self.convertible(),
        ensures
            r@ == self.converts(),
    {
        self.to_scale()
    }

    /// Convert to the UTC timescale, using an orientation provider.
    pub fn to_utc_with<P: Provider>(&self, provider: &P) -> (r: Option<Epoch<UTC>>) where
        Self: ToScaleWith<UTC>,

        ensures
            epoch_view(r) == self.converts_with(at_utc_of(provider), at_tai_of(provider)),
    {
        self.to_scale_with(provider)
    }

    /// Convert to the UTC timescale, statelessly.
    pub fn to_utc(&self) -> (r: Epoch<UTC>) where Self: ToScale<UTC>
        requires
            self.convertible(),
        ensures
            r@ == self.converts(),
    {
        self.to_scale()
    }
}

} // verus!
