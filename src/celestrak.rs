//! Celestrak orientation provider.
//!
//! This provider reads the CSV files produced by Celestrak, which hold
//! Earth orientation data and leap second info, one row per day.
//!
//! Every continuously varying quantity is held as a whole number of
//! billionths of its unit: nano-arcseconds for angles, nanoseconds for
//! times.

use vstd::prelude::*;
use vstd::string::StringSliceAdditionalSpecFns;

use crate::epoch::Epoch;
use crate::provider::{delta_view, Provider};
use crate::scale::{TAI, UT1, UTC};
use crate::name::{modified_julian_day_0_spec, name_offset};
use crate::text::{
    decimal_value, fields, integer_value, lines, parse_decimal, parse_integer, split_bytes,
    split_lines, views,
};
use crate::time_delta::{lemma_div_unique, nanos_in_range, TimeDelta};

verus! {

/// Whether an entry was observed or predicted.
#[derive(Clone, Copy, Debug, PartialEq, Eq, Structural)]
pub enum Type {
    Observed,
    Predicted,
}

/// The provenance of a result that draws on two entries: predicted as soon
/// as either is.
pub open spec fn merge_spec(a: Type, b: Type) -> Type {
    if a is Predicted || b is Predicted {
        Type::Predicted
    } else {
        Type::Observed
    }
}

impl Type {
    /// Combines the provenance of two entries; see [merge_spec].
    pub fn merge(&self, other: &Self) -> (r: Self)
        ensures
            r == merge_spec(*self, *other),
    {
        match self {
            Self::Observed => match other {
                Self::Observed => Self::Observed,
                Self::Predicted => Self::Predicted,
            },
            Self::Predicted => Self::Predicted,
        }
    }
}

/// One row of orientation data.
#[derive(Clone, Copy, Debug)]
pub struct Entry {
    /// Measurement time.
    pub time_utc: Epoch<UTC>,
    /// Polar motion x, nano-arcseconds.
    pub x: i64,
    /// Polar motion y, nano-arcseconds.
    pub y: i64,
    /// UT1 - UTC, nanoseconds.
    pub ut1_utc: i64,
    /// Length of day, nanoseconds.
    pub lod: i64,
    /// Nutation correction in longitude, nano-arcseconds.
    pub dpsi: i64,
    /// Nutation correction in obliquity, nano-arcseconds.
    pub deps: i64,
    /// Celestial pole offset dx, nano-arcseconds.
    pub dx: i64,
    /// Celestial pole offset dy, nano-arcseconds.
    pub dy: i64,
    /// TAI - UTC, seconds.
    pub tai_utc: i64,
    /// Is this entry observed or predicted?
    pub data_type: Type,
}

/// The time of an entry in UTC, in nanoseconds.
pub open spec fn utc_key(e: Entry) -> int {
    e.time_utc@
}

/// The time of an entry in TAI, in nanoseconds.
pub open spec fn tai_key(e: Entry) -> int {
    e.time_utc@ + e.tai_utc * 1_000_000_000
}

/// The time of an entry in UT1, in nanoseconds.
pub open spec fn ut1_key(e: Entry) -> int {
    e.time_utc@ + e.ut1_utc
}

/// `v0 + (v1 - v0) * num / den`, rounded down: the value a fraction
/// `num / den` of the way from `v0` to `v1`.
pub open spec fn lerp_value(v0: int, v1: int, num: int, den: int) -> int {
    v0 + (v1 - v0) * num / den
}

/// The entry a fraction `num / den` of the way from `a` to `b`.
///
/// The continuously varying fields are interpolated. The time and the
/// leap offset are those of `a`, since a leap second takes effect at a
/// boundary; the provenance is merged.
pub open spec fn interpolate(a: Entry, b: Entry, num: int, den: int) -> Entry {
    Entry {
        time_utc: a.time_utc,
        x: lerp_value(a.x as int, b.x as int, num, den) as i64,
        y: lerp_value(a.y as int, b.y as int, num, den) as i64,
        ut1_utc: lerp_value(a.ut1_utc as int, b.ut1_utc as int, num, den) as i64,
        lod: lerp_value(a.lod as int, b.lod as int, num, den) as i64,
        dpsi: lerp_value(a.dpsi as int, b.dpsi as int, num, den) as i64,
        deps: lerp_value(a.deps as int, b.deps as int, num, den) as i64,
        dx: lerp_value(a.dx as int, b.dx as int, num, den) as i64,
        dy: lerp_value(a.dy as int, b.dy as int, num, den) as i64,
        tai_utc: a.tai_utc,
        data_type: merge_spec(a.data_type, b.data_type),
    }
}

/// The index of the first entry whose time, by `key`, is after `t`; the
/// length of `es` if there is none.
pub open spec fn first_after(es: Seq<Entry>, key: spec_fn(Entry) -> int, t: int) -> int
    decreases es.len(),
{
    if es.len() == 0 {
        0
    } else if key(es[0]) > t {
        0
    } else {
        1 + first_after(es.drop_first(), key, t)
    }
}

/// The data at instant `t`, where `key` reads each entry's time in the
/// scale of `t`.
///
/// The first entry after `t` and the one before it bracket `t`, and the
/// result is interpolated between them along that scale. `None` when no
/// entry is after `t`, or the first one already is.
pub open spec fn lookup(es: Seq<Entry>, key: spec_fn(Entry) -> int, t: int) -> Option<Entry> {
    let i = first_after(es, key, t);
    if i == 0 || i >= es.len() {
        None
    } else {
        let a = es[i - 1];
        let b = es[i];
        Some(interpolate(a, b, t - key(a), key(b) - key(a)))
    }
}

/// Whether entries are in ascending order of UTC time.
pub open spec fn sorted_by_time(es: Seq<Entry>) -> bool {
    forall|i: int, j: int| 0 <= i < j < es.len() ==> es[i].time_utc@ <= es[j].time_utc@
}

/// `a * num / den`, rounded down, with the remainder.
fn mul_div(a: u128, num: u128, den: u128) -> (r: (u128, u128))
    requires
        a < 0x1_0000_0000_0000_0000,
        num < den,
        den < 0x1_0000_0000_0000_0000_0000_0000_0000,
    ensures
        a * num == r.0 * den + r.1,
        r.1 < den,
        r.0 <= a,
        r.1 > 0 ==> r.0 < a,
    decreases a,
{
    if a == 0 {
        return (0, 0);
    }
    let half = a / 2;
    let bit = a % 2;
    let (q, rem) = mul_div(half, num, den);
    assert(bit * num <= num) by (nonlinear_arith)
        requires
            bit <= 1,
    ;
    let twice: u128 = 2 * rem + bit * num;
    let q2 = 2 * q + twice / den;
    let r2 = twice % den;
    assert(a * num == 2 * (half * num) + bit * num) by (nonlinear_arith)
        requires
            a == 2 * half + bit,
    ;
    assert(q2 * den + r2 == 2 * q * den + twice) by (nonlinear_arith)
        requires
            q2 == 2 * q + twice / den,
            r2 == twice % den,
            den > 0,
    ;
    assert(2 * (q * den) == 2 * q * den) by (nonlinear_arith);
    assert(q2 <= a && (r2 > 0 ==> q2 < a)) by (nonlinear_arith)
        requires
            a * num == q2 * den + r2,
            num < den,
            r2 >= 0,
            den > 0,
            a >= 0,
    ;
    (q2, r2)
}

/// `v0 + (v1 - v0) * num / den`, rounded down.
fn lerp_exec(v0: i64, v1: i64, num: i128, den: i128) -> (r: i64)
    requires
        0 <= num < den,
        den < 0x1_0000_0000_0000_0000_0000_0000_0000,
    ensures
        r as int == lerp_value(v0 as int, v1 as int, num as int, den as int),
{
    let diff: i128 = v1 as i128 - v0 as i128;
    if diff >= 0 {
        let (q, rem) = mul_div(diff as u128, num as u128, den as u128);
        proof {
            lemma_div_unique(diff * num, den as int, q as int, rem as int);
        }
        (v0 as i128 + q as i128) as i64
    } else {
        let (q, rem) = mul_div((-diff) as u128, num as u128, den as u128);
        assert(diff * num == -(q * den) - rem) by (nonlinear_arith)
            requires
                (-diff) * num == q * den + rem,
        ;
        if rem == 0 {
            assert((-q) * den == -(q * den)) by (nonlinear_arith);
            proof {
                lemma_div_unique(diff * num, den as int, -q, 0);
            }
            (v0 as i128 - q as i128) as i64
        } else {
            assert(diff * num == (-q - 1) * den + (den - rem)) by (nonlinear_arith)
                requires
                    diff * num == -(q * den) - rem,
            ;
            proof {
                lemma_div_unique(diff * num, den as int, -q - 1, den - rem);
            }
            (v0 as i128 - q as i128 - 1) as i64
        }
    }
}

impl Entry {
    /// The entry a fraction `num / den` of the way towards `other`; see
    /// [interpolate].
    fn lerp(&self, other: &Self, num: i128, den: i128) -> (r: Self)
        requires
            0 <= num < den,
            den < 0x1_0000_0000_0000_0000_0000_0000_0000,
        ensures
            r == interpolate(*self, *other, num as int, den as int),
    {
        Entry {
            time_utc: self.time_utc,
            x: lerp_exec(self.x, other.x, num, den),
            y: lerp_exec(self.y, other.y, num, den),
            ut1_utc: lerp_exec(self.ut1_utc, other.ut1_utc, num, den),
            lod: lerp_exec(self.lod, other.lod, num, den),
            dpsi: lerp_exec(self.dpsi, other.dpsi, num, den),
            deps: lerp_exec(self.deps, other.deps, num, den),
            dx: lerp_exec(self.dx, other.dx, num, den),
            dy: lerp_exec(self.dy, other.dy, num, den),
            tai_utc: self.tai_utc,
            data_type: self.data_type.merge(&other.data_type),
        }
    }
}

/// Reads an entry's time in UTC.
pub open spec fn by_utc() -> spec_fn(Entry) -> int {
    |e: Entry| utc_key(e)
}

/// Reads an entry's time in TAI.
pub open spec fn by_tai() -> spec_fn(Entry) -> int {
    |e: Entry| tai_key(e)
}

/// Reads an entry's time in UT1.
pub open spec fn by_ut1() -> spec_fn(Entry) -> int {
    |e: Entry| ut1_key(e)
}

/// A leap offset in nanoseconds, from the entry that a lookup found.
pub open spec fn leap_nanos(e: Option<Entry>) -> Option<int> {
    match e {
        Some(x) => Some(x.tai_utc * 1_000_000_000),
        None => None,
    }
}

/// UT1 - UTC in nanoseconds, from the entry that a lookup found.
pub open spec fn ut1_utc_nanos(e: Option<Entry>) -> Option<int> {
    match e {
        Some(x) => Some(x.ut1_utc as int),
        None => None,
    }
}

/// The scale in which a lookup reads the entries' times.
enum Key {
    Utc,
    Tai,
    Ut1,
}

spec fn key_fn(k: Key) -> spec_fn(Entry) -> int {
    match k {
        Key::Utc => by_utc(),
        Key::Tai => by_tai(),
        Key::Ut1 => by_ut1(),
    }
}

/// The bound on the magnitude of every entry time, in any of the scales.
spec fn key_bound() -> int {
    0x4000_0000_0000_0000_0000_0000
}

/// An entry's time in the scale `k`, in nanoseconds.
fn key_nanos(e: &Entry, k: &Key) -> (r: i128)
    ensures
        r == (key_fn(*k))(*e),
        -key_bound() < r < key_bound(),
{
    proof {
        e.time_utc.lemma_in_range();
    }
    let t = e.time_utc.to_frameshift().to_nanos();
    match k {
        Key::Utc => t,
        Key::Tai => t + e.tai_utc as i128 * 1_000_000_000,
        Key::Ut1 => t + e.ut1_utc as i128,
    }
}

/// The first entry after `t` is where a scan that met none stops.
pub proof fn lemma_first_after(es: Seq<Entry>, key: spec_fn(Entry) -> int, t: int, i: int)
    requires
        0 <= i <= es.len(),
        forall|j: int| 0 <= j < i ==> key(#[trigger] es[j]) <= t,
        i == es.len() || key(es[i]) > t,
    ensures
        first_after(es, key, t) == i,
    decreases i,
{
    if i > 0 {
        let rest = es.drop_first();
        assert forall|j: int| 0 <= j < i - 1 implies key(#[trigger] rest[j]) <= t by {
            assert(rest[j] == es[j + 1]);
        }
        lemma_first_after(rest, key, t, i - 1);
    }
}

/// Earth orientation data from Celestrak, in ascending order of time.
pub struct CelestrakProvider {
    entries: Vec<Entry>,
}

impl View for CelestrakProvider {
    type V = Seq<Entry>;

    closed spec fn view(&self) -> Seq<Entry> {
        self.entries@
    }
}

impl CelestrakProvider {
    fn lookup_exec(&self, k: &Key, t: i128) -> (r: Option<Entry>)
        requires
            -key_bound() < t < key_bound(),
        ensures
            r == lookup(self@, key_fn(*k), t as int),
    {
        let ghost key = key_fn(*k);
        let n = self.entries.len();
        let mut i: usize = 0;
        let mut found = false;
        while !found && i < n
            invariant
                n == self.entries.len(),
                i <= n,
                key == key_fn(*k),
                forall|j: int| 0 <= j < i ==> key(#[trigger] self@[j]) <= t,
                found ==> i < n && key(self@[i as int]) > t,
            decreases n - i + (if found {
                0int
            } else {
                1int
            }),
        {
            if key_nanos(&self.entries[i], k) > t {
                found = true;
            } else {
                i = i + 1;
            }
        }
        proof {
            lemma_first_after(self@, key, t as int, i as int);
        }
        if i == 0 || i >= n {
            return None;
        }
        let a = &self.entries[i - 1];
        let b = &self.entries[i];
        let ka = key_nanos(a, k);
        let kb = key_nanos(b, k);
        assert(key(self@[i - 1]) <= t);
        Some(a.lerp(b, t - ka, kb - ka))
    }

    /// Builds a provider from entries in any order: the same entries,
    /// sorted by time.
    pub fn from_entries(entries: Vec<Entry>) -> (r: Self)
        ensures
            sorted_by_time(r@),
            r@.to_multiset() == entries@.to_multiset(),
    {
        let mut out: Vec<Entry> = Vec::new();
        let mut i: usize = 0;
        assert(entries@.subrange(0, 0) =~= out@);
        while i < entries.len()
            invariant
                i <= entries.len(),
                sorted_by_time(out@),
                out@.to_multiset() == entries@.subrange(0, i as int).to_multiset(),
            decreases entries.len() - i,
        {
            let e = entries[i];
            let key = e.time_utc.to_frameshift().to_nanos();
            let mut pos: usize = 0;
            while pos < out.len() && out[pos].time_utc.to_frameshift().to_nanos() <= key
                invariant
                    pos <= out.len(),
                    forall|j: int| 0 <= j < pos ==> (#[trigger] out@[j]).time_utc@ <= key,
                decreases out.len() - pos,
            {
                pos = pos + 1;
            }
            let ghost before = out@;
            out.insert(pos, e);
            assert(out@ == before.insert(pos as int, e));
            proof {
                vstd::seq_lib::to_multiset_insert(before, pos as int, e);
                vstd::seq_lib::to_multiset_build(entries@.subrange(0, i as int), e);
            }
            assert forall|a: int, b: int| 0 <= a < b < out@.len() implies out@[a].time_utc@
                <= out@[b].time_utc@ by {
                if b < pos {
                } else if b == pos {
                    assert(out@[a] == before[a]);
                } else if a < pos {
                    assert(out@[b] == before[b - 1]);
                    assert(before[pos as int].time_utc@ > key);
                    assert(before[pos as int].time_utc@ <= before[b - 1].time_utc@);
                } else if a == pos {
                    assert(out@[b] == before[b - 1]);
                    assert(before[pos as int].time_utc@ <= before[b - 1].time_utc@);
                } else {
                    assert(out@[a] == before[a - 1]);
                    assert(out@[b] == before[b - 1]);
                }
            }
            assert(entries@.subrange(0, i + 1) == entries@.subrange(0, i as int).push(e));
            i = i + 1;
        }
        assert(entries@.subrange(0, entries.len() as int) == entries@);
        CelestrakProvider { entries: out }
    }

    /// The entries, in ascending order of time.
    pub fn entries(&self) -> (r: &Vec<Entry>)
        ensures
            r@ == self@,
    {
        &self.entries
    }

    /// The data at a UTC instant, interpolated between the entries that
    /// bracket it; `None` outside the range of the data.
    pub fn get_utc(&self, t: &Epoch<UTC>) -> (r: Option<Entry>)
        ensures
            r == lookup(self@, by_utc(), t@),
    {
        proof {
            t.lemma_in_range();
        }
        self.lookup_exec(&Key::Utc, t.to_frameshift().to_nanos())
    }

    /// The data at a TAI instant. Each entry's time is read in TAI, by its
    /// own leap offset, and the result is interpolated along TAI.
    pub fn get_tai(&self, t: &Epoch<TAI>) -> (r: Option<Entry>)
        ensures
            r == lookup(self@, by_tai(), t@),
    {
        proof {
            t.lemma_in_range();
        }
        self.lookup_exec(&Key::Tai, t.to_frameshift().to_nanos())
    }

    /// The data at a UT1 instant. Each entry's time is read in UT1, by its
    /// own UT1 - UTC, and the result is interpolated along UT1.
    pub fn get_ut1(&self, t: &Epoch<UT1>) -> (r: Option<Entry>)
        ensures
            r == lookup(self@, by_ut1(), t@),
    {
        proof {
            t.lemma_in_range();
        }
        self.lookup_exec(&Key::Ut1, t.to_frameshift().to_nanos())
    }

    /// Return UT1 - UTC for the given UTC [Epoch], or `None` outside the
    /// range of the data.
    pub fn ut1_utc_for_utc(&self, epoch: &Epoch<UTC>) -> (r: Option<TimeDelta<UT1>>)
        ensures
            delta_view(r) == ut1_utc_nanos(lookup(self@, by_utc(), epoch@)),
    {
        match self.get_utc(epoch) {
            Some(e) => Some(TimeDelta::from_nanos(e.ut1_utc as i128)),
            None => None,
        }
    }

    /// Return UT1 - UTC for the given UT1 [Epoch], or `None` outside the
    /// range of the data.
    pub fn ut1_utc_for_ut1(&self, epoch: &Epoch<UT1>) -> (r: Option<TimeDelta<UT1>>)
        ensures
            delta_view(r) == ut1_utc_nanos(lookup(self@, by_ut1(), epoch@)),
    {
        match self.get_ut1(epoch) {
            Some(e) => Some(TimeDelta::from_nanos(e.ut1_utc as i128)),
            None => None,
        }
    }
}

impl Entry {
    /// The time of this entry in TAI, by its own leap offset.
    pub fn time_tai(&self) -> (r: Epoch<TAI>)
        requires
            nanos_in_range(tai_key(*self)),
        ensures
            r@ == tai_key(*self),
    {
        proof {
            self.time_utc.lemma_in_range();
        }
        Epoch::from_frameshift(TimeDelta::from_nanos(
            self.time_utc.to_frameshift().to_nanos() + self.tai_utc as i128 * 1_000_000_000,
        ))
    }

    /// The time of this entry in UT1, by its own UT1 - UTC.
    pub fn time_ut1(&self) -> (r: Epoch<UT1>)
        requires
            nanos_in_range(ut1_key(*self)),
        ensures
            r@ == ut1_key(*self),
    {
        proof {
            self.time_utc.lemma_in_range();
        }
        Epoch::from_frameshift(TimeDelta::from_nanos(
            self.time_utc.to_frameshift().to_nanos() + self.ut1_utc as i128,
        ))
    }
}

impl Provider for CelestrakProvider {
    open spec fn tai_utc_at_utc(&self, t: int) -> Option<int> {
        leap_nanos(lookup(self@, by_utc(), t))
    }

    open spec fn tai_utc_at_tai(&self, t: int) -> Option<int> {
        leap_nanos(lookup(self@, by_tai(), t))
    }

    fn tai_utc_for_utc(&self, epoch: &Epoch<UTC>) -> (r: Option<TimeDelta<TAI>>) {
        match self.get_utc(epoch) {
            Some(e) => TimeDelta::new(e.tai_utc, 0),
            None => None,
        }
    }

    fn tai_utc_for_tai(&self, epoch: &Epoch<TAI>) -> (r: Option<TimeDelta<TAI>>) {
        match self.get_tai(epoch) {
            Some(e) => TimeDelta::new(e.tai_utc, 0),
            None => None,
        }
    }
}

/// A column of the CSV file.
#[derive(Clone, Copy, Debug, PartialEq, Eq, Structural)]
pub enum Column {
    /// `MJD`: modified Julian day, UTC.
    Mjd,
    /// `X`: polar motion x, arc-seconds.
    X,
    /// `Y`: polar motion y, arc-seconds.
    Y,
    /// `UT1-UTC`: seconds.
    Ut1Utc,
    /// `LOD`: length of day, seconds.
    Lod,
    /// `DPSI`: arc-seconds.
    Dpsi,
    /// `DEPS`: arc-seconds.
    Deps,
    /// `DX`: arc-seconds.
    Dx,
    /// `DY`: arc-seconds.
    Dy,
    /// `DAT`: TAI - UTC, whole seconds.
    Dat,
    /// `DATA_TYPE`: `O` for observed, `P` for predicted.
    DataType,
}

/// The columns in the order in which each row is read.
pub open spec fn column_at(k: int) -> Column {
    if k == 0 {
        Column::Mjd
    } else if k == 1 {
        Column::X
    } else if k == 2 {
        Column::Y
    } else if k == 3 {
        Column::Ut1Utc
    } else if k == 4 {
        Column::Lod
    } else if k == 5 {
        Column::Dpsi
    } else if k == 6 {
        Column::Deps
    } else if k == 7 {
        Column::Dx
    } else if k == 8 {
        Column::Dy
    } else if k == 9 {
        Column::Dat
    } else {
        Column::DataType
    }
}

/// The number of columns a row is read from.
pub open spec fn column_count() -> int {
    11
}

/// The header name of a column, as bytes.
pub open spec fn column_name(c: Column) -> Seq<u8> {
    match c {
        Column::Mjd => seq![77u8, 74u8, 68u8],
        Column::X => seq![88u8],
        Column::Y => seq![89u8],
        Column::Ut1Utc => seq![85u8, 84u8, 49u8, 45u8, 85u8, 84u8, 67u8],
        Column::Lod => seq![76u8, 79u8, 68u8],
        Column::Dpsi => seq![68u8, 80u8, 83u8, 73u8],
        Column::Deps => seq![68u8, 69u8, 80u8, 83u8],
        Column::Dx => seq![68u8, 88u8],
        Column::Dy => seq![68u8, 89u8],
        Column::Dat => seq![68u8, 65u8, 84u8],
        Column::DataType => seq![68u8, 65u8, 84u8, 65u8, 95u8, 84u8, 89u8, 80u8, 69u8],
    }
}

impl Column {
    /// The header name of this column.
    pub fn name(&self) -> (r: &'static str)
        ensures
            r@ == column_name(*self).map_values(|b: u8| b as char),
    {
        match self {
            Column::Mjd => {
                proof {
                    reveal_strlit("MJD");
                }
                assert("MJD"@ =~= column_name(*self).map_values(|b: u8| b as char));
                "MJD"
            },
            Column::X => {
                proof {
                    reveal_strlit("X");
                }
                assert("X"@ =~= column_name(*self).map_values(|b: u8| b as char));
                "X"
            },
            Column::Y => {
                proof {
                    reveal_strlit("Y");
                }
                assert("Y"@ =~= column_name(*self).map_values(|b: u8| b as char));
                "Y"
            },
            Column::Ut1Utc => {
                proof {
                    reveal_strlit("UT1-UTC");
                }
                assert("UT1-UTC"@ =~= column_name(*self).map_values(|b: u8| b as char));
                "UT1-UTC"
            },
            Column::Lod => {
                proof {
                    reveal_strlit("LOD");
                }
                assert("LOD"@ =~= column_name(*self).map_values(|b: u8| b as char));
                "LOD"
            },
            Column::Dpsi => {
                proof {
                    reveal_strlit("DPSI");
                }
                assert("DPSI"@ =~= column_name(*self).map_values(|b: u8| b as char));
                "DPSI"
            },
            Column::Deps => {
                proof {
                    reveal_strlit("DEPS");
                }
                assert("DEPS"@ =~= column_name(*self).map_values(|b: u8| b as char));
                "DEPS"
            },
            Column::Dx => {
                proof {
                    reveal_strlit("DX");
                }
                assert("DX"@ =~= column_name(*self).map_values(|b: u8| b as char));
                "DX"
            },
            Column::Dy => {
                proof {
                    reveal_strlit("DY");
                }
                assert("DY"@ =~= column_name(*self).map_values(|b: u8| b as char));
                "DY"
            },
            Column::Dat => {
                proof {
                    reveal_strlit("DAT");
                }
                assert("DAT"@ =~= column_name(*self).map_values(|b: u8| b as char));
                "DAT"
            },
            Column::DataType => {
                proof {
                    reveal_strlit("DATA_TYPE");
                }
                assert("DATA_TYPE"@ =~= column_name(*self).map_values(|b: u8| b as char));
                "DATA_TYPE"
            },
        }
    }
}

/// What can go wrong while reading a CSV file.
#[derive(Clone, Copy, Debug, PartialEq, Eq, Structural)]
pub enum Error {
    /// The CSV data could not be read.
    Read,
    /// The CSV file does not have a header.
    MissingHeader,
    /// The CSV file does not contain the column.
    MissingColumn(Column),
    /// The row (counted from 0 after the header) is missing the column.
    MissingField(usize, Column),
    /// The column of the row (counted from 0 after the header) failed to
    /// parse.
    BadParse(usize, Column),
}

/// The provenance that a field writes: `O` or `P`.
pub open spec fn type_value(s: Seq<u8>) -> Option<Type> {
    if s == seq![79u8] {
        Some(Type::Observed)
    } else if s == seq![80u8] {
        Some(Type::Predicted)
    } else {
        None
    }
}

impl Type {
    /// Reads the provenance from a field: `O` is observed, `P` predicted.
    pub fn from_bytes(s: &[u8]) -> (r: Option<Type>)
        ensures
            r == type_value(s@),
    {
        if s.len() == 1 && s[0] == 79u8 {
            assert(s@ =~= seq![79u8]);
            Some(Type::Observed)
        } else if s.len() == 1 && s[0] == 80u8 {
            assert(s@ =~= seq![80u8]);
            Some(Type::Predicted)
        } else {
            assert(s@ != seq![79u8] && s@ != seq![80u8]) by {
                if s.len() == 1 {
                    assert(s@[0] == s[0]);
                }
            }
            None
        }
    }
}

impl core::str::FromStr for Type {
    type Err = ();

    fn from_str(s: &str) -> (r: Result<Self, ()>)
        ensures
            r == match type_value(s.spec_bytes()) {
                Some(t) => Ok(t),
                None => Err::<Type, ()>(()),
            },
    {
        match Type::from_bytes(s.as_bytes()) {
            Some(t) => Ok(t),
            None => Err(()),
        }
    }
}

/// The index of the first field of `h` equal to `name`, if any.
pub open spec fn position(h: Seq<Seq<u8>>, name: Seq<u8>) -> Option<int>
    decreases h.len(),
{
    if h.len() == 0 {
        None
    } else if h[0] == name {
        Some(0)
    } else {
        match position(h.drop_first(), name) {
            Some(j) => Some(j + 1),
            None => None,
        }
    }
}

/// The positions in the header `h` of the columns from the `k`-th on, or
/// the first of them that is missing.
pub open spec fn find_columns(h: Seq<Seq<u8>>, k: nat) -> Result<Seq<usize>, Error>
    decreases column_count() - k,
{
    if k >= column_count() {
        Ok(Seq::empty())
    } else {
        match position(h, column_name(column_at(k as int))) {
            None => Err(Error::MissingColumn(column_at(k as int))),
            Some(j) => match find_columns(h, k + 1) {
                Ok(rest) => Ok(seq![j as usize] + rest),
                Err(e) => Err(e),
            },
        }
    }
}

/// Whether the field of the `k`-th column parses as that column's type.
pub open spec fn field_parses(k: int, s: Seq<u8>) -> bool {
    if k <= 8 {
        decimal_value(s) is Some
    } else if k == 9 {
        integer_value(s) is Some
    } else {
        type_value(s) is Some
    }
}

/// What is wrong with the `k`-th column of the row `rowi`, if anything.
pub open spec fn field_check(row: Seq<Seq<u8>>, rowi: int, idx: Seq<usize>, k: int) -> Option<
    Error,
> {
    if idx[k] >= row.len() {
        Some(Error::MissingField(rowi as usize, column_at(k)))
    } else if !field_parses(k, row[idx[k] as int]) {
        Some(Error::BadParse(rowi as usize, column_at(k)))
    } else {
        None
    }
}

/// The first thing wrong with the columns of a row from the `k`-th on.
pub open spec fn row_error(row: Seq<Seq<u8>>, rowi: int, idx: Seq<usize>, k: nat) -> Option<Error>
    decreases column_count() - k,
{
    if k >= column_count() {
        None
    } else {
        match field_check(row, rowi, idx, k as int) {
            Some(e) => Some(e),
            None => row_error(row, rowi, idx, k + 1),
        }
    }
}

/// The UTC time, in nanoseconds, of a modified Julian day given in
/// billionths of a day.
pub open spec fn mjd_nanos(billionths: int) -> int {
    name_offset(modified_julian_day_0_spec()) + billionths * 86_400
}

/// The decimal in the `k`-th column of a row.
pub open spec fn decimal_at(row: Seq<Seq<u8>>, idx: Seq<usize>, k: int) -> int {
    decimal_value(row[idx[k] as int])->0
}

/// The entry that a row whose fields all parse describes.
pub open spec fn row_entry(row: Seq<Seq<u8>>, idx: Seq<usize>) -> Entry {
    Entry {
        time_utc: Epoch::from_nanos_spec(mjd_nanos(decimal_at(row, idx, 0))),
        x: decimal_at(row, idx, 1) as i64,
        y: decimal_at(row, idx, 2) as i64,
        ut1_utc: decimal_at(row, idx, 3) as i64,
        lod: decimal_at(row, idx, 4) as i64,
        dpsi: decimal_at(row, idx, 5) as i64,
        deps: decimal_at(row, idx, 6) as i64,
        dx: decimal_at(row, idx, 7) as i64,
        dy: decimal_at(row, idx, 8) as i64,
        tai_utc: integer_value(row[idx[9] as int])->0 as i64,
        data_type: type_value(row[idx[10] as int])->0,
    }
}

/// The entry on the line of row `rowi`, or the first thing wrong with it.
pub open spec fn parse_row(line: Seq<u8>, rowi: int, idx: Seq<usize>) -> Result<Entry, Error> {
    let row = fields(line);
    match row_error(row, rowi, idx, 0) {
        Some(e) => Err(e),
        None => Ok(row_entry(row, idx)),
    }
}

/// The entries on the data lines, in file order, or the first thing wrong
/// with them.
pub open spec fn parse_rows(ls: Seq<Seq<u8>>, idx: Seq<usize>) -> Result<Seq<Entry>, Error>
    decreases ls.len(),
{
    if ls.len() == 0 {
        Ok(Seq::empty())
    } else {
        match parse_rows(ls.drop_last(), idx) {
            Err(e) => Err(e),
            Ok(es) => match parse_row(ls.last(), ls.len() - 1, idx) {
                Err(e) => Err(e),
                Ok(e) => Ok(es.push(e)),
            },
        }
    }
}

/// The entries of a CSV file in file order, or the first thing wrong with
/// it: no header line, then a missing column, then a row that lacks a
/// field or has one that does not parse.
pub open spec fn parse_csv(data: Seq<u8>) -> Result<Seq<Entry>, Error> {
    let ls = lines(data);
    if ls.len() == 0 {
        Err(Error::MissingHeader)
    } else {
        match find_columns(fields(ls[0]), 0) {
            Err(e) => Err(e),
            Ok(idx) => parse_rows(ls.drop_first(), idx),
        }
    }
}

/// The column read `k`-th in each row.
fn column_exec(k: usize) -> (r: Column)
    requires
        k < 11,
    ensures
        r == column_at(k as int),
{
    if k == 0 {
        Column::Mjd
    } else if k == 1 {
        Column::X
    } else if k == 2 {
        Column::Y
    } else if k == 3 {
        Column::Ut1Utc
    } else if k == 4 {
        Column::Lod
    } else if k == 5 {
        Column::Dpsi
    } else if k == 6 {
        Column::Deps
    } else if k == 7 {
        Column::Dx
    } else if k == 8 {
        Column::Dy
    } else if k == 9 {
        Column::Dat
    } else {
        Column::DataType
    }
}

/// The header name of a column, as bytes.
fn column_bytes(c: Column) -> (r: Vec<u8>)
    ensures
        r@ == column_name(c),
{
    let v = match c {
        Column::Mjd => vec![77u8, 74u8, 68u8],
        Column::X => vec![88u8],
        Column::Y => vec![89u8],
        Column::Ut1Utc => vec![85u8, 84u8, 49u8, 45u8, 85u8, 84u8, 67u8],
        Column::Lod => vec![76u8, 79u8, 68u8],
        Column::Dpsi => vec![68u8, 80u8, 83u8, 73u8],
        Column::Deps => vec![68u8, 69u8, 80u8, 83u8],
        Column::Dx => vec![68u8, 88u8],
        Column::Dy => vec![68u8, 89u8],
        Column::Dat => vec![68u8, 65u8, 84u8],
        Column::DataType => vec![68u8, 65u8, 84u8, 65u8, 95u8, 84u8, 89u8, 80u8, 69u8],
    };
    assert(v@ =~= column_name(c));
    v
}

/// Whether two byte strings are equal.
fn bytes_eq(a: &[u8], b: &[u8]) -> (r: bool)
    ensures
        r == (a@ == b@),
{
    if a.len() != b.len() {
        return false;
    }
    let mut i: usize = 0;
    while i < a.len()
        invariant
            a.len() == b.len(),
            i <= a.len(),
            forall|j: int| 0 <= j < i ==> a@[j] == b@[j],
        decreases a.len() - i,
    {
        if a[i] != b[i] {
            return false;
        }
        i = i + 1;
    }
    assert(a@ =~= b@);
    true
}

/// The first field equal to `name` is where a scan that met none stops.
pub proof fn lemma_position(h: Seq<Seq<u8>>, name: Seq<u8>, i: int)
    requires
        0 <= i <= h.len(),
        forall|j: int| 0 <= j < i ==> h[j] != name,
        i == h.len() || h[i] == name,
    ensures
        position(h, name) == (if i == h.len() {
            None
        } else {
            Some(i)
        }),
    decreases i,
{
    if i > 0 {
        lemma_position(h.drop_first(), name, i - 1);
    }
}

/// The index of the first field of the header equal to `name`.
fn find_column(header: &Vec<Vec<u8>>, name: &Vec<u8>) -> (r: Option<usize>)
    ensures
        r matches Some(j) ==> position(views(header@), name@) == Some(j as int) && j
            < header.len(),
        r is None ==> position(views(header@), name@) is None,
{
    let ghost h = views(header@);
    let mut i: usize = 0;
    while i < header.len()
        invariant
            i <= header.len(),
            h == views(header@),
            forall|j: int| 0 <= j < i ==> h[j] != name@,
        decreases header.len() - i,
    {
        if bytes_eq(header[i].as_slice(), name.as_slice()) {
            proof {
                lemma_position(h, name@, i as int);
            }
            return Some(i);
        }
        i = i + 1;
    }
    proof {
        lemma_position(h, name@, i as int);
    }
    None
}

/// `res` with `p` put in front of what it holds.
pub open spec fn prefixed(p: Seq<usize>, res: Result<Seq<usize>, Error>) -> Result<Seq<usize>, Error> {
    match res {
        Ok(rest) => Ok(p + rest),
        Err(e) => Err(e),
    }
}

/// Finds the position in the header of each column.
fn find_columns_exec(header: &Vec<Vec<u8>>) -> (r: Result<Vec<usize>, Error>)
    ensures
        match r {
            Ok(v) => find_columns(views(header@), 0) == Ok::<Seq<usize>, Error>(v@) && v.len() == 11,
            Err(e) => find_columns(views(header@), 0) == Err::<Seq<usize>, Error>(e),
        },
{
    let ghost h = views(header@);
    let mut idx: Vec<usize> = Vec::new();
    let mut k: usize = 0;
    assert(prefixed(idx@, find_columns(h, 0)) == find_columns(h, 0)) by {
        match find_columns(h, 0) {
            Ok(rest) => {
                assert(idx@ + rest =~= rest);
            },
            Err(e) => {},
        }
    }
    while k < 11
        invariant
            k <= 11,
            h == views(header@),
            idx.len() == k,
            find_columns(h, 0) == prefixed(idx@, find_columns(h, k as nat)),
        decreases 11 - k,
    {
        let c = column_exec(k);
        let name = column_bytes(c);
        match find_column(header, &name) {
            Some(j) => {
                let ghost before = idx@;
                idx.push(j);
                assert(prefixed(before, find_columns(h, k as nat)) == prefixed(
                    idx@,
                    find_columns(h, (k + 1) as nat),
                )) by {
                    match find_columns(h, (k + 1) as nat) {
                        Ok(rest) => {
                            assert(before + (seq![j] + rest) =~= idx@ + rest);
                        },
                        Err(e) => {},
                    }
                }
            },
            None => {
                return Err(Error::MissingColumn(c));
            },
        }
        k = k + 1;
    }
    assert(idx@ + Seq::<usize>::empty() =~= idx@);
    Ok(idx)
}

/// Columns whose fields are all fine leave the first fault to the later
/// columns.
pub proof fn lemma_row_error_skip(row: Seq<Seq<u8>>, rowi: int, idx: Seq<usize>, k: nat)
    requires
        k <= column_count(),
        forall|j: int| 0 <= j < k ==> field_check(row, rowi, idx, j) is None,
    ensures
        row_error(row, rowi, idx, 0) == row_error(row, rowi, idx, k),
    decreases k,
{
    if k > 0 {
        lemma_row_error_skip(row, rowi, idx, (k - 1) as nat);
        assert(field_check(row, rowi, idx, k - 1) is None);
    }
}

/// The field of the `k`-th column of a row.
fn field_bytes<'a>(row: &'a Vec<Vec<u8>>, rowi: usize, idx: &Vec<usize>, k: usize) -> (r: Result<
    &'a [u8],
    Error,
>)
    requires
        idx.len() == 11,
        k < 11,
    ensures
        match r {
            Ok(f) => idx@[k as int] < row.len() && f@ == views(row@)[idx@[k as int] as int],
            Err(e) => idx@[k as int] >= row.len() && e == Error::MissingField(
                rowi,
                column_at(k as int),
            ),
        },
{
    let i = idx[k];
    if i < row.len() {
        Ok(row[i].as_slice())
    } else {
        Err(Error::MissingField(rowi, column_exec(k)))
    }
}

/// The decimal in the `k`-th column of a row.
fn decimal_field(row: &Vec<Vec<u8>>, rowi: usize, idx: &Vec<usize>, k: usize) -> (r: Result<
    i64,
    Error,
>)
    requires
        idx.len() == 11,
        k <= 8,
    ensures
        match r {
            Ok(v) => field_check(views(row@), rowi as int, idx@, k as int) is None && decimal_value(
                views(row@)[idx@[k as int] as int],
            ) == Some(v as int),
            Err(e) => field_check(views(row@), rowi as int, idx@, k as int) == Some(e),
        },
{
    let f = match field_bytes(row, rowi, idx, k) {
        Ok(f) => f,
        Err(e) => {
            return Err(e);
        },
    };
    match parse_decimal(f) {
        Some(v) => Ok(v),
        None => Err(Error::BadParse(rowi, column_exec(k))),
    }
}

/// Reads the entry on the line of row `rowi`.
fn parse_row_exec(line: &[u8], rowi: usize, idx: &Vec<usize>) -> (r: Result<Entry, Error>)
    requires
        idx.len() == 11,
    ensures
        r == parse_row(line@, rowi as int, idx@),
{
    let row = split_bytes(line, 44u8);
    let ghost fs = views(row@);
    assert(fs == fields(line@));
    let mut vals: Vec<i64> = Vec::new();
    let mut k: usize = 0;
    while k < 9
        invariant
            k <= 9,
            idx.len() == 11,
            fs == views(row@),
            fs == fields(line@),
            vals.len() == k,
            forall|j: int| 0 <= j < k ==> field_check(fs, rowi as int, idx@, j) is None,
            forall|j: int| 0 <= j < k ==> decimal_value(#[trigger] fs[idx@[j] as int]) == Some(
                vals@[j] as int,
            ),
        decreases 9 - k,
    {
        match decimal_field(&row, rowi, idx, k) {
            Ok(v) => {
                vals.push(v);
            },
            Err(e) => {
                proof {
                    lemma_row_error_skip(fs, rowi as int, idx@, k as nat);
                    assert(row_error(fs, rowi as int, idx@, k as nat) == Some(e));
                }
                return Err(e);
            },
        }
        k = k + 1;
    }
    let dat = match field_bytes(&row, rowi, idx, 9) {
        Ok(f) => match parse_integer(f) {
            Some(v) => v,
            None => {
                proof {
                    lemma_row_error_skip(fs, rowi as int, idx@, 9);
                }
                return Err(Error::BadParse(rowi, Column::Dat));
            },
        },
        Err(e) => {
            proof {
                lemma_row_error_skip(fs, rowi as int, idx@, 9);
            }
            return Err(e);
        },
    };
    let data_type = match field_bytes(&row, rowi, idx, 10) {
        Ok(f) => match Type::from_bytes(f) {
            Some(t) => t,
            None => {
                proof {
                    lemma_row_error_skip(fs, rowi as int, idx@, 10);
                }
                return Err(Error::BadParse(rowi, Column::DataType));
            },
        },
        Err(e) => {
            proof {
                lemma_row_error_skip(fs, rowi as int, idx@, 10);
            }
            return Err(e);
        },
    };
    proof {
        lemma_row_error_skip(fs, rowi as int, idx@, 11);
    }
    let days = TimeDelta::<UTC>::from_nanos(vals[0] as i128 * 86_400);
    let time_utc = Epoch::from_modified_julian_day(days);
    Ok(
        Entry {
            time_utc,
            x: vals[1],
            y: vals[2],
            ut1_utc: vals[3],
            lod: vals[4],
            dpsi: vals[5],
            deps: vals[6],
            dx: vals[7],
            dy: vals[8],
            tai_utc: dat,
            data_type,
        },
    )
}

/// Reading one more row extends the entries, or ends in its fault.
pub proof fn lemma_rows_step(ls: Seq<Seq<u8>>, idx: Seq<usize>, n: int, es: Seq<Entry>)
    requires
        0 <= n < ls.len(),
        parse_rows(ls.subrange(0, n), idx) == Ok::<Seq<Entry>, Error>(es),
    ensures
        parse_rows(ls.subrange(0, n + 1), idx) == match parse_row(ls[n], n, idx) {
            Ok(e) => Ok(es.push(e)),
            Err(e) => Err::<Seq<Entry>, Error>(e),
        },
{
    let prefix = ls.subrange(0, n + 1);
    assert(prefix.drop_last() == ls.subrange(0, n));
    assert(prefix.last() == ls[n]);
}

/// A fault among the first rows is the fault of them all.
pub proof fn lemma_rows_err(ls: Seq<Seq<u8>>, idx: Seq<usize>, n: int)
    requires
        0 <= n <= ls.len(),
        parse_rows(ls.subrange(0, n), idx) is Err,
    ensures
        parse_rows(ls, idx) == parse_rows(ls.subrange(0, n), idx),
    decreases ls.len(),
{
    if n == ls.len() {
        assert(ls.subrange(0, n) == ls);
    } else {
        assert(ls.drop_last().subrange(0, n) == ls.subrange(0, n));
        lemma_rows_err(ls.drop_last(), idx, n);
    }
}

impl CelestrakProvider {
    /// Reads a provider from the bytes of a Celestrak CSV file.
    ///
    /// The first line is a header that names the columns, in any order;
    /// each further line is one entry. The entries are then sorted by time.
    pub fn from_csv(data: &[u8]) -> (r: Result<Self, Error>)
        ensures
            match parse_csv(data@) {
                Ok(es) => r matches Ok(p) && sorted_by_time(p@) && p@.to_multiset()
                    == es.to_multiset(),
                Err(e) => r == Err::<Self, Error>(e),
            },
    {
        let ls = split_lines(data);
        if ls.len() == 0 {
            return Err(Error::MissingHeader);
        }
        assert(views(ls@)[0] == ls@[0]@);
        let header = split_bytes(ls[0].as_slice(), 44u8);
        let idx = match find_columns_exec(&header) {
            Ok(v) => v,
            Err(e) => {
                return Err(e);
            },
        };
        let ghost data_lines = views(ls@).drop_first();
        assert(views(ls@)[0] == ls@[0]@);
        assert(parse_csv(data@) == parse_rows(data_lines, idx@));
        let mut entries: Vec<Entry> = Vec::new();
        let mut r: usize = 1;
        assert(data_lines.subrange(0, 0) =~= Seq::<Seq<u8>>::empty());
        while r < ls.len()
            invariant
                1 <= r <= ls.len(),
                idx.len() == 11,
                views(ls@) == lines(data@),
                data_lines == views(ls@).drop_first(),
                parse_csv(data@) == parse_rows(data_lines, idx@),
                parse_rows(data_lines.subrange(0, r - 1), idx@) == Ok::<Seq<Entry>, Error>(
                    entries@,
                ),
            decreases ls.len() - r,
        {
            proof {
                lemma_rows_step(data_lines, idx@, r - 1, entries@);
                assert(data_lines[r - 1] == ls@[r as int]@);
            }
            match parse_row_exec(ls[r].as_slice(), r - 1, &idx) {
                Ok(e) => {
                    entries.push(e);
                },
                Err(err) => {
                    proof {
                        lemma_rows_err(data_lines, idx@, r as int);
                    }
                    return Err(err);
                },
            }
            r = r + 1;
        }
        assert(data_lines.subrange(0, ls.len() - 1) == data_lines);
        Ok(Self::from_entries(entries))
    }
}

/// What [first_after] returns: every entry before it is at or before `t`,
/// and the entry it names, if any, is after `t`.
pub proof fn lemma_first_after_props(es: Seq<Entry>, key: spec_fn(Entry) -> int, t: int)
    ensures
        0 <= first_after(es, key, t) <= es.len(),
        forall|j: int| 0 <= j < first_after(es, key, t) ==> key(#[trigger] es[j]) <= t,
        first_after(es, key, t) < es.len() ==> key(es[first_after(es, key, t)]) > t,
    decreases es.len(),
{
    if es.len() > 0 && key(es[0]) <= t {
        let rest = es.drop_first();
        lemma_first_after_props(rest, key, t);
        assert forall|j: int| 0 <= j < first_after(es, key, t) implies key(#[trigger] es[j])
            <= t by {
            if j > 0 {
                assert(es[j] == rest[j - 1]);
            }
        }
    }
}

/// For sorted entries from `t0` to `tN`, a UTC lookup before `t0`, or at
/// `tN` or after, finds nothing; one at `t0` or after and before `tN` finds
/// a result.
pub proof fn lemma_lookup_range(es: Seq<Entry>, t: int)
    requires
        sorted_by_time(es),
        es.len() >= 1,
    ensures
        t < utc_key(es[0]) ==> lookup(es, by_utc(), t) is None,
        t >= utc_key(es.last()) ==> lookup(es, by_utc(), t) is None,
        utc_key(es[0]) <= t < utc_key(es.last()) ==> lookup(es, by_utc(), t) is Some,
{
    let key = by_utc();
    lemma_first_after_props(es, key, t);
    let i = first_after(es, key, t);
    if t < utc_key(es[0]) {
        assert(i == 0) by {
            if i > 0 {
                assert(key(es[0]) <= t);
            }
        }
    }
    if t >= utc_key(es.last()) {
        assert(i == es.len()) by {
            if i < es.len() {
                assert(key(es[i]) > t);
                assert(es[i].time_utc@ <= es[es.len() - 1].time_utc@);
            }
        }
    }
    if utc_key(es[0]) <= t < utc_key(es.last()) {
        assert(i != 0) by {
            if i == 0 {
                assert(key(es[0]) > t);
            }
        }
        assert(i != es.len()) by {
            if i == es.len() {
                assert(key(es[es.len() - 1]) <= t);
            }
        }
    }
}

/// Halfway between `v0` and `v1` is their mean, rounded down.
pub proof fn lemma_lerp_half(v0: int, v1: int, num: int)
    requires
        num > 0,
    ensures
        lerp_value(v0, v1, num, 2 * num) == (v0 + v1) / 2,
{
    let d = v1 - v0;
    let h = d / 2;
    let r = d % 2;
    assert(d == 2 * h + r && 0 <= r < 2) by (nonlinear_arith)
        requires
            h == d / 2,
            r == d % 2,
    ;
    assert(d * num == h * (2 * num) + r * num) by (nonlinear_arith)
        requires
            d == 2 * h + r,
    ;
    assert(0 <= r * num < 2 * num) by (nonlinear_arith)
        requires
            0 <= r < 2,
            num > 0,
    ;
    lemma_div_unique(d * num, 2 * num, h, r * num);
    lemma_div_unique(v0 + v1, 2, v0 + h, r);
}

/// A UTC lookup halfway between two adjacent entries gives the mean of
/// each interpolated field (rounded down) and the earlier entry's leap
/// offset.
pub proof fn lemma_lookup_midpoint(es: Seq<Entry>, i: int, t: int)
    requires
        sorted_by_time(es),
        0 < i < es.len(),
        utc_key(es[i - 1]) < utc_key(es[i]),
        2 * (t - utc_key(es[i - 1])) == utc_key(es[i]) - utc_key(es[i - 1]),
    ensures
        lookup(es, by_utc(), t) is Some,
        ({
            let r = lookup(es, by_utc(), t)->0;
            let a = es[i - 1];
            let b = es[i];
            &&& r.x == (a.x + b.x) / 2
            &&& r.y == (a.y + b.y) / 2
            &&& r.ut1_utc == (a.ut1_utc + b.ut1_utc) / 2
            &&& r.lod == (a.lod + b.lod) / 2
            &&& r.dpsi == (a.dpsi + b.dpsi) / 2
            &&& r.deps == (a.deps + b.deps) / 2
            &&& r.dx == (a.dx + b.dx) / 2
            &&& r.dy == (a.dy + b.dy) / 2
            &&& r.tai_utc == a.tai_utc
            &&& r.data_type == merge_spec(a.data_type, b.data_type)
        }),
{
    let key = by_utc();
    assert forall|j: int| 0 <= j < i implies key(#[trigger] es[j]) <= t by {
        if j < i - 1 {
            assert(es[j].time_utc@ <= es[i - 1].time_utc@);
        }
    }
    lemma_first_after(es, key, t, i);
    let a = es[i - 1];
    let b = es[i];
    let num = t - utc_key(a);
    let den = utc_key(b) - utc_key(a);
    assert(den == 2 * num);
    lemma_lerp_half(a.x as int, b.x as int, num);
    lemma_lerp_half(a.y as int, b.y as int, num);
    lemma_lerp_half(a.ut1_utc as int, b.ut1_utc as int, num);
    lemma_lerp_half(a.lod as int, b.lod as int, num);
    lemma_lerp_half(a.dpsi as int, b.dpsi as int, num);
    lemma_lerp_half(a.deps as int, b.deps as int, num);
    lemma_lerp_half(a.dx as int, b.dx as int, num);
    lemma_lerp_half(a.dy as int, b.dy as int, num);
}

/// Merging provenance: observed with observed is observed; anything with
/// predicted is predicted, in either order.
pub proof fn lemma_merge_table()
    ensures
        merge_spec(Type::Observed, Type::Observed) == Type::Observed,
        merge_spec(Type::Observed, Type::Predicted) == Type::Predicted,
        merge_spec(Type::Predicted, Type::Observed) == Type::Predicted,
        merge_spec(Type::Predicted, Type::Predicted) == Type::Predicted,
        forall|a: Type, b: Type| merge_spec(a, b) == merge_spec(b, a),
{
}

/// A header that lacks only `DATA_TYPE` fails the column search on it.
proof fn lemma_find_columns_lacking_type(h: Seq<Seq<u8>>, k: nat)
    requires
        k <= 10,
        forall|j: int| k <= j < 10 ==> position(h, column_name(#[trigger] column_at(j))) is Some,
        position(h, column_name(Column::DataType)) is None,
    ensures
        find_columns(h, k) == Err::<Seq<usize>, Error>(Error::MissingColumn(Column::DataType)),
    decreases 10 - k,
{
    if k < 10 {
        lemma_find_columns_lacking_type(h, k + 1);
        assert(position(h, column_name(column_at(k as int))) is Some);
    } else {
        assert(find_columns(h, 10) == match position(h, column_name(Column::DataType)) {
            None => Err(Error::MissingColumn(Column::DataType)),
            Some(j) => match find_columns(h, 11) {
                Ok(rest) => Ok(seq![j as usize] + rest),
                Err(e) => Err(e),
            },
        });
    }
}

/// A CSV file whose header has every column but `DATA_TYPE` fails with a
/// missing `DATA_TYPE` column, whatever its rows hold.
pub proof fn lemma_missing_data_type(data: Seq<u8>)
    requires
        lines(data).len() > 0,
        forall|j: int|
            0 <= j < 10 ==> position(fields(lines(data)[0]), column_name(#[trigger] column_at(j)))
                is Some,
        position(fields(lines(data)[0]), column_name(Column::DataType)) is None,
    ensures
        parse_csv(data) == Err::<Seq<Entry>, Error>(Error::MissingColumn(Column::DataType)),
{
    lemma_find_columns_lacking_type(fields(lines(data)[0]), 0);
}

} // verus!
