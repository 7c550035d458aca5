use frameshift::text::{parse_decimal, parse_integer, split_bytes, split_lines};
use frameshift::{
    CelestrakProvider, Column, EmptyProvider, Entry, Epoch, Error, Provider, TimeDelta, ToScaleWith,
    Type, TAI, TT, UT1, UTC,
};

const HEADER: &str = "MJD,X,Y,UT1-UTC,LOD,DPSI,DEPS,DX,DY,DAT,DATA_TYPE";

fn provider(rows: &[&str]) -> Result<CelestrakProvider, Error> {
    let mut text = String::from(HEADER);
    for row in rows {
        text.push('\n');
        text.push_str(row);
    }
    text.push('\n');
    CelestrakProvider::from_csv(text.as_bytes())
}

fn three_rows() -> CelestrakProvider {
    provider(&[
        "0,0.1,0.2,0.3,0.001,-0.1,-0.2,0.01,0.02,10,O",
        "1,0.2,0.4,0.5,0.003,-0.3,-0.4,0.03,0.04,11,O",
        "2,0.3,0.6,0.7,0.005,-0.5,-0.6,0.05,0.06,12,P",
    ])
    .unwrap()
}

/// The instant `secs` seconds after modified Julian day 0.
fn mjd<S>(secs: i64) -> Epoch<S> {
    Epoch::from_modified_julian_day(TimeDelta::new(secs, 0).unwrap())
}

/// The UTC instant `secs` seconds after modified Julian day 0.
fn mjd_utc(secs: i64) -> Epoch<UTC> {
    mjd(secs)
}

#[test]
fn three_row_table_end_to_end() {
    let p = three_rows();
    let e = p.get_utc(&mjd_utc(43_200)).unwrap();
    assert_eq!(e.tai_utc, 10);
    assert_eq!(e.x, 150_000_000);
    assert_eq!(e.y, 300_000_000);
    assert_eq!(e.data_type, Type::Observed);
    assert!(p.get_utc(&mjd_utc(2 * 86_400)).is_none());
    assert!(p.get_utc(&mjd_utc(3 * 86_400)).is_none());
}

#[test]
fn lookup_absent_outside_range() {
    let p = three_rows();
    assert!(p.get_utc(&mjd_utc(-1)).is_none());
    assert!(p.get_utc(&mjd_utc(2 * 86_400 + 1)).is_none());
    assert!(p.get_utc(&mjd_utc(0)).is_some());
    assert!(p.get_utc(&mjd_utc(1)).is_some());
    assert!(p.get_utc(&mjd_utc(2 * 86_400 - 1)).is_some());
}

#[test]
fn lookup_midpoint_is_mean() {
    let p = three_rows();
    let e = p.get_utc(&mjd_utc(86_400 + 43_200)).unwrap();
    assert_eq!(e.x, 250_000_000);
    assert_eq!(e.y, 500_000_000);
    assert_eq!(e.ut1_utc, 600_000_000);
    assert_eq!(e.lod, 4_000_000);
    assert_eq!(e.dpsi, -400_000_000);
    assert_eq!(e.deps, -500_000_000);
    assert_eq!(e.dx, 40_000_000);
    assert_eq!(e.dy, 50_000_000);
    assert_eq!(e.tai_utc, 11);
    assert_eq!(e.data_type, Type::Predicted);
    assert_eq!(e.time_utc, mjd_utc(86_400));
}

#[test]
fn lookup_at_a_record_gives_the_record() {
    let p = three_rows();
    let e = p.get_utc(&mjd_utc(86_400)).unwrap();
    assert_eq!(e.x, 200_000_000);
    assert_eq!(e.tai_utc, 11);
}

#[test]
fn lookup_quarter_way() {
    let p = three_rows();
    let e = p.get_utc(&mjd_utc(21_600)).unwrap();
    assert_eq!(e.x, 125_000_000);
    assert_eq!(e.dpsi, -150_000_000);
}

#[test]
fn provenance_merge() {
    assert_eq!(Type::Observed.merge(&Type::Observed), Type::Observed);
    assert_eq!(Type::Observed.merge(&Type::Predicted), Type::Predicted);
    assert_eq!(Type::Predicted.merge(&Type::Observed), Type::Predicted);
    assert_eq!(Type::Predicted.merge(&Type::Predicted), Type::Predicted);
}

#[test]
fn type_from_str() {
    assert_eq!("O".parse::<Type>(), Ok(Type::Observed));
    assert_eq!("P".parse::<Type>(), Ok(Type::Predicted));
    assert_eq!("Q".parse::<Type>(), Err(()));
    assert_eq!("OP".parse::<Type>(), Err(()));
}

#[test]
fn missing_data_type_column() {
    let text = "MJD,X,Y,UT1-UTC,LOD,DPSI,DEPS,DX,DY,DAT\n0,0.1,0.2,0.3,0.001,-0.1,-0.2,0.01,0.02,10\nbad\n";
    let r = CelestrakProvider::from_csv(text.as_bytes());
    assert_eq!(r.err(), Some(Error::MissingColumn(Column::DataType)));
    assert_eq!(Column::DataType.name(), "DATA_TYPE");
}

#[test]
fn missing_first_column_is_reported_first() {
    let text = "X,Y\n";
    let r = CelestrakProvider::from_csv(text.as_bytes());
    assert_eq!(r.err(), Some(Error::MissingColumn(Column::Mjd)));
}

#[test]
fn missing_header() {
    let r = CelestrakProvider::from_csv(b"");
    assert_eq!(r.err(), Some(Error::MissingHeader));
}

#[test]
fn header_only_gives_no_data() {
    let p = provider(&[]).unwrap();
    assert_eq!(p.entries().len(), 0);
    assert!(p.get_utc(&mjd_utc(0)).is_none());
}

#[test]
fn missing_field() {
    let r = provider(&["0,0.1,0.2,0.3,0.001,-0.1,-0.2,0.01,0.02,10,O", "1,0.2"]);
    assert_eq!(r.err(), Some(Error::MissingField(1, Column::Y)));
}

#[test]
fn bad_parse() {
    let r = provider(&["0,0.1,zero,0.3,0.001,-0.1,-0.2,0.01,0.02,10,O"]);
    assert_eq!(r.err(), Some(Error::BadParse(0, Column::Y)));
    let r = provider(&["0,0.1,0.2,0.3,0.001,-0.1,-0.2,0.01,0.02,10.5,O"]);
    assert_eq!(r.err(), Some(Error::BadParse(0, Column::Dat)));
    let r = provider(&["0,0.1,0.2,0.3,0.001,-0.1,-0.2,0.01,0.02,10,X"]);
    assert_eq!(r.err(), Some(Error::BadParse(0, Column::DataType)));
}

#[test]
fn columns_in_any_order_and_crlf() {
    let text = "DATA_TYPE,DAT,MJD,X,Y,UT1-UTC,LOD,DPSI,DEPS,DX,DY\r\nP,37,1,1,2,3,4,5,6,7,8\r\nO,36,0,0,0,0,0,0,0,0,0\r\n";
    let p = CelestrakProvider::from_csv(text.as_bytes()).unwrap();
    let es = p.entries();
    assert_eq!(es.len(), 2);
    assert_eq!(es[0].tai_utc, 36);
    assert_eq!(es[0].data_type, Type::Observed);
    assert_eq!(es[1].tai_utc, 37);
    assert_eq!(es[1].x, 1_000_000_000);
    assert_eq!(es[1].dy, 8_000_000_000);
    assert_eq!(es[1].time_utc, mjd_utc(86_400));
}

#[test]
fn from_entries_sorts_by_time() {
    let p = three_rows();
    let mut es: Vec<Entry> = p.entries().clone();
    es.reverse();
    let q = CelestrakProvider::from_entries(es);
    let times: Vec<Epoch<UTC>> = q.entries().iter().map(|e| e.time_utc).collect();
    assert_eq!(times, vec![mjd_utc(0), mjd_utc(86_400), mjd_utc(2 * 86_400)]);
}

#[test]
fn provider_leap_offsets() {
    let p = three_rows();
    assert_eq!(p.tai_utc_for_utc(&mjd_utc(43_200)), Some(TimeDelta::new(10, 0).unwrap()));
    assert_eq!(p.tai_utc_for_utc(&mjd_utc(-5)), None);
    let t: Epoch<TAI> = mjd_utc(86_400 + 100).to_tai_with(&p).unwrap();
    assert_eq!(t, mjd(86_400 + 111));
    assert_eq!(p.tai_utc_for_tai(&t), Some(TimeDelta::new(11, 0).unwrap()));
    let back: Epoch<UTC> = t.to_utc_with(&p).unwrap();
    assert_eq!(back, mjd_utc(86_400 + 100));
    let tt: Epoch<TT> = mjd_utc(100).to_tt_with(&p).unwrap();
    assert_eq!(tt.to_utc_with(&p), Some(mjd_utc(100)));
    assert_eq!(EmptyProvider.tai_utc_for_tai(&t), None);
}

#[test]
fn tai_lookup_reads_times_in_tai() {
    let p = three_rows();
    // the first record is at 10 s TAI past its UTC time
    let first_tai: Epoch<TAI> = mjd(10);
    assert_eq!(p.get_tai(&first_tai).unwrap().x, 100_000_000);
    let just_before: Epoch<TAI> = mjd(9);
    assert!(p.get_tai(&just_before).is_none());
    assert_eq!(p.entries()[0].time_tai(), first_tai);
}

#[test]
fn ut1_lookups() {
    let p = three_rows();
    assert_eq!(
        p.ut1_utc_for_utc(&mjd_utc(43_200)),
        Some(TimeDelta::<UT1>::from_nanos(400_000_000))
    );
    let first_ut1: Epoch<UT1> = p.entries()[0].time_ut1();
    assert_eq!(first_ut1.to_frameshift().to_nanos(), mjd_utc(0).to_frameshift().to_nanos() + 300_000_000);
    assert_eq!(p.ut1_utc_for_ut1(&first_ut1), Some(TimeDelta::<UT1>::from_nanos(300_000_000)));
    assert!(p.get_ut1(&first_ut1).is_some());
}

#[test]
fn decimals() {
    assert_eq!(parse_decimal(b"0.1"), Some(100_000_000));
    assert_eq!(parse_decimal(b"-0.5"), Some(-500_000_000));
    assert_eq!(parse_decimal(b"+2"), Some(2_000_000_000));
    assert_eq!(parse_decimal(b"3."), Some(3_000_000_000));
    assert_eq!(parse_decimal(b".25"), Some(250_000_000));
    assert_eq!(parse_decimal(b"1.1234567891"), Some(1_123_456_789));
    assert_eq!(parse_decimal(b"-1.1234567899"), Some(-1_123_456_789));
    assert_eq!(parse_decimal(b"9223372036.854775807"), Some(i64::MAX));
    assert_eq!(parse_decimal(b"-9223372036.854775808"), Some(i64::MIN));
    assert_eq!(parse_decimal(b"9223372036.854775808"), None);
    assert_eq!(parse_decimal(b"1e5"), None);
    assert_eq!(parse_decimal(b"."), None);
    assert_eq!(parse_decimal(b""), None);
    assert_eq!(parse_decimal(b"-"), None);
    assert_eq!(parse_decimal(b"1.2.3"), None);
    assert_eq!(parse_decimal(b" 1"), None);
}

#[test]
fn integers() {
    assert_eq!(parse_integer(b"37"), Some(37));
    assert_eq!(parse_integer(b"+37"), Some(37));
    assert_eq!(parse_integer(b"-4"), Some(-4));
    assert_eq!(parse_integer(b"9223372036854775807"), Some(i64::MAX));
    assert_eq!(parse_integer(b"-9223372036854775808"), Some(i64::MIN));
    assert_eq!(parse_integer(b"9223372036854775808"), None);
    assert_eq!(parse_integer(b""), None);
    assert_eq!(parse_integer(b"+"), None);
    assert_eq!(parse_integer(b"1.0"), None);
}

#[test]
fn splitting() {
    let parts = split_bytes(b"a,,b", b',');
    assert_eq!(parts, vec![b"a".to_vec(), b"".to_vec(), b"b".to_vec()]);
    assert_eq!(split_bytes(b"", b','), vec![Vec::<u8>::new()]);
    let ls = split_lines(b"one\r\ntwo\n\nthree");
    assert_eq!(ls, vec![b"one".to_vec(), b"two".to_vec(), b"".to_vec(), b"three".to_vec()]);
    assert_eq!(split_lines(b"x\n"), vec![b"x".to_vec()]);
    assert_eq!(split_lines(b""), Vec::<Vec<u8>>::new());
}
