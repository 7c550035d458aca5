use vstd::prelude::*;

verus! {

/// 1 us = 1,000 ns
pub const NANOS_PER_MICRO: u32 = 1_000;

/// 1 ms = 1,000,000 ns
pub const NANOS_PER_MILLI: u32 = 1_000_000;

/// 1 s = 1,000,000,000 ns
pub const NANOS_PER_SEC: u32 = 1_000_000_000;

/// 1 m = 60 s
pub const SECS_PER_MIN: u32 = 60;

/// 1 h = 3,600 s
pub const SECS_PER_HOUR: u32 = 3_600;

/// 1 d = 86,400 s
pub const SECS_PER_DAY: u32 = 86_400;

/// The smallest number of nanoseconds a [TimeDelta] can hold.
pub open spec fn min_nanos() -> int {
    i64::MIN as int * NANOS_PER_SEC as int
}

/// The largest number of nanoseconds a [TimeDelta] can hold.
pub open spec fn max_nanos() -> int {
    i64::MAX as int * NANOS_PER_SEC as int + (NANOS_PER_SEC as int - 1)
}

/// Whether a signed count of nanoseconds can be held by a [TimeDelta].
pub open spec fn nanos_in_range(n: int) -> bool {
    min_nanos() <= n <= max_nanos()
}

/// The whole seconds of a count of nanoseconds, rounded down.
pub open spec fn raw_secs(n: int) -> int {
    n / NANOS_PER_SEC as int
}

/// The sub-second part of a count of nanoseconds, always in `[0, 1 s)`.
pub open spec fn raw_nanos(n: int) -> int {
    n % NANOS_PER_SEC as int
}

/// Quotient and remainder of a division by a positive number are the only
/// pair that recombines to the dividend with the remainder in range.
pub proof fn lemma_div_unique(n: int, d: int, q: int, r: int)
    requires
        d > 0,
        q * d + r == n,
        0 <= r < d,
    ensures
        q == n / d,
        r == n % d,
{
    assert(q == n / d && r == n % d) by (nonlinear_arith)
        requires
            d > 0,
            q * d + r == n,
            0 <= r < d,
    ;
}

/// Tells whether a count of nanoseconds can be held by a [TimeDelta].
pub(crate) fn nanos_fit(n: i128) -> (r: bool)
    ensures
        r == nanos_in_range(n as int),
{
    let lo: i128 = -9_223_372_036_854_775_808 * 1_000_000_000;
    let hi: i128 = 9_223_372_036_854_775_807 * 1_000_000_000 + 999_999_999;
    lo <= n && n <= hi
}

/// A signed difference between two [Epoch][crate::Epoch]s in the same scale.
///
/// Its view is the signed number of nanoseconds it spans.
#[derive(Debug, Hash, Ord)]
pub struct TimeDelta<S> {
    secs: i64,
    nanos: u32,
    marker: core::marker::PhantomData<S>,
}

impl<S> View for TimeDelta<S> {
    type V = int;

    closed spec fn view(&self) -> int {
        self.secs as int * NANOS_PER_SEC as int + (self.nanos % NANOS_PER_SEC) as int
    }
}

impl<S> TimeDelta<S> {
    /// The value whose view is `n`.
    pub closed spec fn from_nanos_spec(n: int) -> TimeDelta<S> {
        TimeDelta { secs: raw_secs(n) as i64, nanos: raw_nanos(n) as u32, marker: core::marker::PhantomData }
    }

    /// Every [TimeDelta] lies within the representable range.
    pub proof fn lemma_in_range(&self)
        ensures
            nanos_in_range(self@),
    {
    }

    /// A count of nanoseconds in range is the view of exactly one value.
    pub broadcast proof fn lemma_from_nanos_spec(n: int)
        requires
            nanos_in_range(n),
        ensures
            (#[trigger] Self::from_nanos_spec(n))@ == n,
    {
        assert(raw_secs(n) * NANOS_PER_SEC as int + raw_nanos(n) == n);
    }

    /// Splitting a duration with [TimeDelta::to_raw] and joining the parts
    /// with [TimeDelta::new] gives the duration back: the parts meet the
    /// constructor's condition and recombine to the same count.
    pub proof fn lemma_raw_round_trip(d: Self)
        ensures
            i64::MIN <= raw_secs(d@) <= i64::MAX,
            0 <= raw_nanos(d@) < NANOS_PER_SEC,
            raw_secs(d@) * NANOS_PER_SEC as int + raw_nanos(d@) == d@,
    {
        d.lemma_in_range();
        let n = d@;
        let s = NANOS_PER_SEC as int;
        assert(raw_secs(n) * s + raw_nanos(n) == n && 0 <= raw_nanos(n) < s) by (nonlinear_arith)
            requires
                s == 1_000_000_000,
                raw_secs(n) == n / s,
                raw_nanos(n) == n % s,
        ;
        assert(i64::MIN <= raw_secs(n) <= i64::MAX) by (nonlinear_arith)
            requires
                raw_secs(n) * s + raw_nanos(n) == n,
                0 <= raw_nanos(n) < s,
                s == 1_000_000_000,
                i64::MIN * s <= n <= i64::MAX * s + (s - 1),
        ;
    }

    fn from_parts(secs: i64, nanos: u32) -> (r: Self)
        requires
            nanos < NANOS_PER_SEC,
        ensures
            r@ == secs as int * NANOS_PER_SEC as int + nanos as int,
            r == (TimeDelta::<S> { secs, nanos, marker: core::marker::PhantomData }),
    {
        TimeDelta { secs, nanos, marker: core::marker::PhantomData }
    }

    /// The zero-length duration.
    pub fn zero() -> (r: Self)
        ensures
            r@ == 0,
    {
        Self::from_parts(0, 0)
    }

    /// Makes a duration of `secs` seconds and `nanos` nanoseconds.
    ///
    /// Returns `None` when `nanos` is a second or more.
    pub fn new(secs: i64, nanos: u32) -> (r: Option<Self>)
        ensures
            r is Some <==> nanos < NANOS_PER_SEC,
            r matches Some(d) ==> d@ == secs as int * NANOS_PER_SEC as int + nanos as int,
    {
        if nanos < NANOS_PER_SEC {
            Some(Self::from_parts(secs, nanos))
        } else {
            None
        }
    }

    /// Splits the duration into whole seconds, rounded down, and the
    /// nanoseconds left over, which always lie in `[0, 1 s)`.
    pub fn to_raw(&self) -> (r: (i64, u32))
        ensures
            r.0 as int == raw_secs(self@),
            r.1 as int == raw_nanos(self@),
            r.1 < NANOS_PER_SEC,
            r.0 as int * NANOS_PER_SEC as int + r.1 as int == self@,
    {
        (self.secs, self.nanos % NANOS_PER_SEC)
    }

    /// Makes a duration from a signed count of nanoseconds.
    pub fn from_nanos(n: i128) -> (r: Self)
        requires
            nanos_in_range(n as int),
        ensures
            r@ == n as int,
            r == Self::from_nanos_spec(n as int),
    {
        let d: i128 = NANOS_PER_SEC as i128;
        let mut secs: i128 = n / d;
        let mut nanos: i128 = n % d;
        if nanos < 0 {
            secs = secs - 1;
            nanos = nanos + d;
        }
        assert(secs * d + nanos == n && 0 <= nanos < d);
        assert(secs == raw_secs(n as int) && nanos == raw_nanos(n as int)) by (nonlinear_arith)
            requires
                secs * d + nanos == n,
                0 <= nanos < d,
                d == NANOS_PER_SEC,
        ;
        Self::from_parts(secs as i64, nanos as u32)
    }

    /// The signed count of nanoseconds that this duration spans.
    pub fn to_nanos(&self) -> (r: i128)
        ensures
            r as int == self@,
    {
        let s: i128 = self.secs as i128;
        assert(-0x8000_0000_0000_0000 <= s <= 0x7fff_ffff_ffff_ffff);
        assert(-0x8000_0000_0000_0000 * 1_000_000_000 <= s * 1_000_000_000 <= 0x7fff_ffff_ffff_ffff
            * 1_000_000_000) by (nonlinear_arith)
            requires
                -0x8000_0000_0000_0000 <= s <= 0x7fff_ffff_ffff_ffff,
        ;
        s * NANOS_PER_SEC as i128 + (self.nanos % NANOS_PER_SEC) as i128
    }

    /// The sum of two durations, or `None` when it cannot be held.
    pub fn checked_add(&self, rhs: &Self) -> (r: Option<Self>)
        ensures
            r is Some <==> nanos_in_range(self@ + rhs@),
            r matches Some(d) ==> d@ == self@ + rhs@,
    {
        let n = self.to_nanos() + rhs.to_nanos();
        if nanos_fit(n) {
            Some(Self::from_nanos(n))
        } else {
            None
        }
    }

    /// The difference of two durations, or `None` when it cannot be held.
    pub fn checked_sub(&self, rhs: &Self) -> (r: Option<Self>)
        ensures
            r is Some <==> nanos_in_range(self@ - rhs@),
            r matches Some(d) ==> d@ == self@ - rhs@,
    {
        let n = self.to_nanos() - rhs.to_nanos();
        if nanos_fit(n) {
            Some(Self::from_nanos(n))
        } else {
            None
        }
    }

    /// Reinterprets the duration in another scale, keeping its length.
    pub(crate) fn transmute<T>(&self) -> (r: TimeDelta<T>)
        ensures
            r@ == self@,
    {
        TimeDelta::from_parts(self.secs, self.nanos % NANOS_PER_SEC)
    }
}

impl<S> Clone for TimeDelta<S> {
    fn clone(&self) -> (r: Self)
        ensures
            r == *self,
    {
        *self
    }
}

impl<S> Copy for TimeDelta<S> {

}

impl<S> Default for TimeDelta<S> {
    fn default() -> (r: Self)
        ensures
            r@ == 0,
    {
        Self::zero()
    }
}

impl<S> PartialEq for TimeDelta<S> {
    fn eq(&self, other: &Self) -> (r: bool) {
        self.to_nanos() == other.to_nanos()
    }
}

impl<S> vstd::std_specs::cmp::PartialEqSpecImpl for TimeDelta<S> {
    open spec fn obeys_eq_spec() -> bool {
        true
    }

    open spec fn eq_spec(&self, other: &Self) -> bool {
        self@ == other@
    }
}

impl<S> Eq for TimeDelta<S> {

}

impl<S> PartialOrd for TimeDelta<S> {
    fn partial_cmp(&self, other: &Self) -> (r: Option<core::cmp::Ordering>) {
        let a = self.to_nanos();
        let b = other.to_nanos();
        if a < b {
            Some(core::cmp::Ordering::Less)
        } else if a == b {
            Some(core::cmp::Ordering::Equal)
        } else {
            Some(core::cmp::Ordering::Greater)
        }
    }
}

/// The ordering of two views.
pub open spec fn order_of(a: int, b: int) -> core::cmp::Ordering {
    if a < b {
        core::cmp::Ordering::Less
    } else if a == b {
        core::cmp::Ordering::Equal
    } else {
        core::cmp::Ordering::Greater
    }
}

impl<S> vstd::std_specs::cmp::PartialOrdSpecImpl for TimeDelta<S> {
    open spec fn obeys_partial_cmp_spec() -> bool {
        true
    }

    open spec fn partial_cmp_spec(&self, other: &Self) -> Option<core::cmp::Ordering> {
        Some(order_of(self@, other@))
    }
}

impl<S> core::ops::Add for TimeDelta<S> {
    type Output = Self;

    fn add(self, rhs: Self) -> (r: Self)
        ensures
            r@ == self@ + rhs@,
    {
        Self::from_nanos(self.to_nanos() + rhs.to_nanos())
    }
}

impl<S> vstd::std_specs::ops::AddSpecImpl for TimeDelta<S> {
    open spec fn obeys_add_spec() -> bool {
        true
    }

    open spec fn add_req(self, rhs: Self) -> bool {
        nanos_in_range(self@ + rhs@)
    }

    open spec fn add_spec(self, rhs: Self) -> Self {
        Self::from_nanos_spec(self@ + rhs@)
    }
}

impl<S> core::ops::Sub for TimeDelta<S> {
    type Output = Self;

    fn sub(self, rhs: Self) -> (r: Self)
        ensures
            r@ == self@ - rhs@,
    {
        Self::from_nanos(self.to_nanos() - rhs.to_nanos())
    }
}

impl<S> vstd::std_specs::ops::SubSpecImpl for TimeDelta<S> {
    open spec fn obeys_sub_spec() -> bool {
        true
    }

    open spec fn sub_req(self, rhs: Self) -> bool {
        nanos_in_range(self@ - rhs@)
    }

    open spec fn sub_spec(self, rhs: Self) -> Self {
        Self::from_nanos_spec(self@ - rhs@)
    }
}

impl<S> core::ops::Neg for TimeDelta<S> {
    type Output = Self;

    fn neg(self) -> (r: Self)
        ensures
            r@ == -self@,
    {
        Self::from_nanos(-self.to_nanos())
    }
}

impl<S> vstd::std_specs::ops::NegSpecImpl for TimeDelta<S> {
    open spec fn obeys_neg_spec() -> bool {
        true
    }

    open spec fn neg_req(self) -> bool {
        nanos_in_range(-self@)
    }

    open spec fn neg_spec(self) -> Self {
        Self::from_nanos_spec(-self@)
    }
}

} // verus!
