use frameshift::name::{frameshift_0, julian_day_0, modified_julian_day_0};
use frameshift::{
    j2000, name_gregorian, name_julian, DateTimeName, EmptyProvider, Epoch, Scale, TimeDelta,
    ToScale, ToScaleWith, GPS, TAI, TT, UTC,
};

fn delta<S>(secs: i64, nanos: u32) -> TimeDelta<S> {
    TimeDelta::new(secs, nanos).unwrap()
}

#[test]
fn raw_round_trip_positive() {
    let d: TimeDelta<TAI> = delta(5, 300);
    assert_eq!(d.to_raw(), (5, 300));
    assert_eq!(TimeDelta::<TAI>::new(5, 300), Some(d));
}

#[test]
fn raw_round_trip_negative() {
    let d: TimeDelta<TAI> = TimeDelta::from_nanos(-1);
    assert_eq!(d.to_raw(), (-1, 999_999_999));
    let (s, n) = d.to_raw();
    assert_eq!(TimeDelta::<TAI>::new(s, n), Some(d));
    assert_eq!(d.to_nanos(), -1);
}

#[test]
fn raw_round_trip_extremes() {
    for n in [i64::MIN as i128 * 1_000_000_000, -1_500_000_000, 0, 999_999_999, i64::MAX as i128 * 1_000_000_000 + 999_999_999] {
        let d: TimeDelta<UTC> = TimeDelta::from_nanos(n);
        let (s, ns) = d.to_raw();
        assert!(ns < 1_000_000_000);
        assert_eq!(TimeDelta::<UTC>::new(s, ns).unwrap().to_nanos(), n);
    }
}

#[test]
fn new_rejects_full_second_of_nanos() {
    assert!(TimeDelta::<TAI>::new(1, 1_000_000_000).is_none());
    assert!(TimeDelta::<TAI>::new(1, 999_999_999).is_some());
}

#[test]
fn delta_arithmetic() {
    let a: TimeDelta<TT> = delta(1, 500_000_000);
    let b: TimeDelta<TT> = delta(0, 600_000_000);
    assert_eq!(a + b, delta(2, 100_000_000));
    assert_eq!(a - b, delta(0, 900_000_000));
    assert_eq!(b - a, delta(-1, 100_000_000));
    assert_eq!(-a, delta(-2, 500_000_000));
    assert!(b < a);
    assert_eq!(TimeDelta::<TT>::default(), TimeDelta::zero());
    assert!(a.checked_add(&delta(i64::MAX, 0)).is_none());
    assert_eq!(a.checked_sub(&b), Some(delta(0, 900_000_000)));
}

#[test]
fn epoch_arithmetic() {
    let e: Epoch<TAI> = Epoch::from_frameshift(delta(100, 0));
    let later = e + delta(5, 0);
    assert_eq!(later - e, delta(5, 0));
    assert_eq!(later - delta(5, 0), e);
    assert!(e < later);
    assert_eq!(later.to_frameshift(), delta(105, 0));
    assert_eq!(Epoch::<TAI>::default().to_frameshift(), TimeDelta::zero());
}

#[test]
fn reference_names_match_calendars() {
    assert_eq!(name_gregorian(1900, 1, 1, 0, 0, 0), Some(frameshift_0()));
    assert_eq!(name_gregorian(1858, 11, 17, 0, 0, 0), Some(modified_julian_day_0()));
    assert_eq!(name_julian(-4712, 1, 1, 12, 0, 0), Some(julian_day_0()));
}

#[test]
fn gregorian_day_numbers() {
    let unix = name_gregorian(1970, 1, 1, 0, 0, 0).unwrap();
    assert_eq!(unix.day, 719_163);
    let t = name_gregorian(2015, 3, 14, 9, 26, 53).unwrap();
    assert_eq!(t.secs, 9 * 3600 + 26 * 60 + 53);
    assert_eq!(t.nanos, 0);
}

#[test]
fn gregorian_rejects_bad_names() {
    assert_eq!(name_gregorian(2015, 2, 29, 0, 0, 0), None);
    assert_eq!(name_gregorian(2015, 13, 1, 0, 0, 0), None);
    assert_eq!(name_gregorian(2015, 1, 1, 24, 0, 0), None);
    assert_eq!(name_gregorian(2015, 1, 1, 0, 60, 0), None);
    assert_eq!(name_gregorian(2015, 1, 1, 0, 0, 60), None);
}

#[test]
fn julian_dates() {
    // 1582-10-05 (Julian) is 1582-10-15 (Gregorian)
    let j = name_julian(1582, 10, 5, 0, 0, 0).unwrap();
    let g = name_gregorian(1582, 10, 15, 0, 0, 0).unwrap();
    assert_eq!(j, g);
    assert_eq!(name_julian(2000, 13, 1, 0, 0, 0), None);
    assert_eq!(name_julian(2000, 0, 1, 0, 0, 0), None);
    assert_eq!(name_julian(2001, 2, 29, 0, 0, 0), None);
}

#[test]
fn name_round_trip() {
    let name = name_gregorian(2000, 1, 1, 12, 0, 0).unwrap();
    let e: Epoch<TAI> = Epoch::from_name(name);
    assert_eq!(e.to_name(), name);
    assert_eq!(Epoch::<TAI>::from_name(e.to_name()), e);
    let before: Epoch<UTC> = Epoch::from_frameshift(TimeDelta::from_nanos(-1));
    let n = before.to_name();
    assert_eq!(n, DateTimeName { day: 693_595, secs: 86_399, nanos: 999_999_999 });
    assert_eq!(Epoch::<UTC>::from_name(n), before);
}

#[test]
fn name_offsets() {
    let name = name_gregorian(1900, 1, 2, 0, 0, 0).unwrap();
    let e: Epoch<UTC> = Epoch::from_name(name);
    assert_eq!(e.to_frameshift(), delta(86_400, 0));
    let shifted: Epoch<UTC> = Epoch::from_name_delta(&name, delta(10, 0));
    assert_eq!(shifted.to_name_delta(&name), delta(10, 0));
    assert_eq!(shifted.to_frameshift(), delta(86_410, 0));
}

#[test]
fn julian_day_numbers() {
    // 1900-01-01 00:00 is JD 2415020.5 and MJD 15020
    let e: Epoch<UTC> = Epoch::from_frameshift(TimeDelta::zero());
    assert_eq!(e.to_julian_day(), delta(2_415_020 * 86_400 + 43_200, 0));
    assert_eq!(e.to_modified_julian_day(), delta(15_020 * 86_400, 0));
    assert_eq!(Epoch::<UTC>::from_modified_julian_day(delta(15_020 * 86_400, 0)), e);
    assert_eq!(Epoch::<UTC>::from_julian_day(delta(2_415_020 * 86_400 + 43_200, 0)), e);
}

#[test]
fn j2000_is_noon_tt() {
    let name = name_gregorian(2000, 1, 1, 12, 0, 0).unwrap();
    assert_eq!(j2000(), Epoch::<TT>::from_name(name));
    assert_eq!(j2000().to_frameshift(), delta(36_524 * 86_400 + 43_200, 0));
}

#[test]
fn identity_conversions() {
    let e: Epoch<UTC> = Epoch::from_frameshift(delta(123, 456));
    assert_eq!(e.to_scale_with(&EmptyProvider), Some(e));
    assert_eq!(ToScale::<UTC>::to_scale(&e), e);
    assert_eq!(e.to_utc(), e);
    let t: Epoch<TAI> = Epoch::from_frameshift(delta(-7, 1));
    assert_eq!(t.to_tai(), t);
    assert_eq!(t.to_tai_with(&EmptyProvider), Some(t));
}

#[test]
fn tai_tt_offsets() {
    let t: Epoch<TAI> = Epoch::from_frameshift(TimeDelta::zero());
    let tt = t.to_tt();
    assert_eq!(tt.to_frameshift(), delta(32, 184_000_000));
    assert_eq!(tt.to_tai(), t);
    assert_eq!(t.to_tt_with(&EmptyProvider), Some(tt));
    assert_eq!(tt.to_tai_with(&EmptyProvider), Some(t));
}

#[test]
fn tai_tt_round_trip_many() {
    for n in [-1_000_000_000_000i128, -1, 0, 1, 32_184_000_000, 1_000_000_000_000_000] {
        let t: Epoch<TAI> = Epoch::from_frameshift(TimeDelta::from_nanos(n));
        assert_eq!(t.to_tt().to_tai(), t);
    }
}

#[test]
fn gps_offsets() {
    let t: Epoch<TAI> = Epoch::from_frameshift(TimeDelta::zero());
    let g = t.to_gps();
    assert_eq!(g.to_frameshift(), delta(-19, 0));
    assert_eq!(g.to_tai(), t);
    let tt = t.to_tt();
    assert_eq!(tt.to_gps(), g);
    assert_eq!(g.to_tt(), tt);
    assert_eq!(tt.to_gps_with(&EmptyProvider), Some(g));
}

#[test]
fn civil_needs_a_provider() {
    let t: Epoch<TAI> = Epoch::from_frameshift(TimeDelta::zero());
    assert_eq!(t.to_utc_with(&EmptyProvider), None);
    let tt: Epoch<TT> = t.to_tt();
    assert_eq!(tt.to_utc_with(&EmptyProvider), None);
    let u: Epoch<UTC> = Epoch::from_frameshift(TimeDelta::zero());
    assert_eq!(u.to_tai_with(&EmptyProvider), None);
    assert_eq!(u.to_gps_with(&EmptyProvider), None);
    assert_eq!(u.to_tt_with(&EmptyProvider), None);
}

#[test]
fn conversion_overflow_is_absence() {
    let top: Epoch<TAI> = Epoch::from_frameshift(delta(i64::MAX, 0));
    assert_eq!(top.to_tt_with(&EmptyProvider), None);
    let bottom: Epoch<TAI> = Epoch::from_frameshift(delta(i64::MIN, 0));
    assert_eq!(bottom.to_gps_with(&EmptyProvider), None);
}

#[test]
fn scale_names() {
    assert_eq!(TAI::name(), "TAI");
    assert_eq!(TT::name(), "TT");
    assert_eq!(GPS::name(), "GPS");
    assert_eq!(UTC::name(), "UTC");
    assert_eq!(frameshift::UT1::name(), "UT1");
}
