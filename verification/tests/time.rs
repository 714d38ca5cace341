use std::time::{Duration, SystemTime};

use row2pgcopy::item::{to_writer, Error, Ser, Value};
use row2pgcopy::time::primitive::Timestamp;
use row2pgcopy::time::systemtime::Timestampz;

#[test]
fn epoch_utc() {
    let e: SystemTime = SystemTime::UNIX_EPOCH;
    let o: ::time::OffsetDateTime = e.into();
    let t: Timestamp = o.into();
    let (h, _, _) = t.as_hms();
    assert_eq!(0, h);
}

#[test]
fn epoch_tokyo() {
    let e: SystemTime = SystemTime::UNIX_EPOCH;
    let o: ::time::OffsetDateTime = e.into();
    let tk = ::time::UtcOffset::from_hms(09, 00, 0).unwrap();
    let ot: ::time::OffsetDateTime = o.to_offset(tk);
    let t: Timestamp = ot.into();
    let (h, _, _) = t.as_hms();
    assert_eq!(9, h);
}

fn micros(column: &[u8]) -> i64 {
    assert_eq!(column.len(), 12);
    assert_eq!(&column[..4], &[0, 0, 0, 8]);
    let mut p = [0u8; 8];
    p.copy_from_slice(&column[4..]);
    i64::from_be_bytes(p)
}

fn tz_micros(st: SystemTime) -> i64 {
    let mut ser = Ser::new();
    Timestampz::from(st).serialize(&mut ser).unwrap();
    micros(&ser.into_inner())
}

fn ts_micros(t: &Timestamp) -> i64 {
    let mut ser = Ser::new();
    t.serialize(&mut ser).unwrap();
    micros(&ser.into_inner())
}

const Y2K: u64 = 946_684_800;

#[test]
fn one_millisecond_is_a_thousand_microseconds() {
    let a = SystemTime::UNIX_EPOCH + Duration::from_millis(0);
    let b = SystemTime::UNIX_EPOCH + Duration::from_millis(1);
    assert_eq!(tz_micros(b) - tz_micros(a), 1000);
    let a = Timestampz::try_from(Duration::from_millis(86_400_000)).unwrap();
    let b = Timestampz::try_from(Duration::from_millis(86_400_001)).unwrap();
    let mut sa = Ser::new();
    a.serialize(&mut sa).unwrap();
    let mut sb = Ser::new();
    b.serialize(&mut sb).unwrap();
    assert_eq!(micros(&sb.into_inner()) - micros(&sa.into_inner()), 1000);
    let a = Timestamp::from_parts(2_451_545, 0, 0, 0, 0).unwrap();
    let b = Timestamp::from_parts(2_451_545, 0, 0, 0, 1_000_000).unwrap();
    assert_eq!(ts_micros(&b) - ts_micros(&a), 1000);
}

#[test]
fn timestamptz_counts_from_the_year_2000() {
    assert_eq!(tz_micros(SystemTime::UNIX_EPOCH), -946_684_800_000_000);
    assert_eq!(tz_micros(SystemTime::UNIX_EPOCH + Duration::from_secs(Y2K)), 0);
    assert_eq!(tz_micros(SystemTime::UNIX_EPOCH + Duration::new(Y2K + 1, 2_500)), 1_000_002);
    assert_eq!(tz_micros(SystemTime::UNIX_EPOCH - Duration::from_secs(1)), -946_684_801_000_000);
}

#[test]
fn parts_of_a_microsecond_are_dropped_toward_the_year_2000() {
    let y2k = SystemTime::UNIX_EPOCH + Duration::from_secs(Y2K);
    assert_eq!(tz_micros(y2k + Duration::from_nanos(1_999)), 1);
    assert_eq!(tz_micros(y2k - Duration::from_nanos(1_999)), -1);
    assert_eq!(tz_micros(y2k - Duration::from_nanos(500)), 0);
    assert_eq!(tz_micros(y2k + Duration::from_nanos(999_500)), 999);
    assert_eq!(tz_micros(SystemTime::UNIX_EPOCH - Duration::from_nanos(500)), -946_684_800_000_000);
}

#[test]
fn timestamptz_column_bytes() {
    let mut ser = Ser::new();
    Timestampz::from(SystemTime::UNIX_EPOCH + Duration::new(Y2K, 1_000)).serialize(&mut ser).unwrap();
    assert_eq!(ser.into_inner(), vec![0, 0, 0, 8, 0, 0, 0, 0, 0, 0, 0, 1]);
    let mut wtr: Vec<u8> = Vec::new();
    let row = vec![Value::Timestampz(Timestampz::from(SystemTime::UNIX_EPOCH))];
    to_writer(&mut wtr, &row).unwrap();
    assert_eq!(wtr, vec![0, 0, 0, 8, 0xff, 0xfc, 0xa2, 0xfe, 0xc4, 0xc8, 0x20, 0x00]);
}

#[test]
fn a_time_point_out_of_range_is_an_error() {
    let far = match Timestampz::try_from(Duration::from_secs(9_300_000_000_000)) {
        Ok(t) => t,
        Err(e) => {
            assert_eq!(e, "invalid duration");
            return;
        }
    };
    let mut ser = Ser::new();
    ser.serialize_i16(1).unwrap();
    let e = far.serialize(&mut ser).unwrap_err();
    assert!(matches!(e, Error::Message(_)));
    assert_eq!(
        e.to_string(),
        "unable to convert a system time value: value too large to transmit"
    );
    assert_eq!(ser.into_inner(), vec![0, 0, 0, 2, 0, 1]);
}

#[test]
fn a_sum_that_the_clock_lacks_is_an_invalid_duration() {
    match Timestampz::from_checked(None) {
        Ok(_) => panic!("there is no time point"),
        Err(e) => assert_eq!(e, "invalid duration"),
    }
    let sum = SystemTime::UNIX_EPOCH.checked_add(Duration::new(Y2K, 3_000));
    assert!(sum.is_some());
    let t = match Timestampz::from_checked(sum) {
        Ok(t) => t,
        Err(e) => panic!("the clock holds the year 2000: {}", e),
    };
    let mut ser = Ser::new();
    t.serialize(&mut ser).unwrap();
    assert_eq!(micros(&ser.into_inner()), 3);
}

#[test]
fn a_duration_too_long_for_the_clock_is_invalid() {
    match Timestampz::try_from(Duration::MAX) {
        Ok(_) => panic!("no clock holds the longest duration"),
        Err(e) => assert_eq!(e, "invalid duration"),
    }
}

#[test]
fn timestamp_counts_from_the_year_2000() {
    let midnight = Timestamp::from_parts(2_451_545, 0, 0, 0, 0).unwrap();
    assert_eq!(ts_micros(&midnight), 0);
    let t = Timestamp::from_parts(2_451_546, 1, 2, 3, 4_999).unwrap();
    assert_eq!(ts_micros(&t), 86_400_000_000 + 3_723_000_000 + 4);
    let t = Timestamp::from_parts(2_451_544, 23, 59, 59, 999_999_500).unwrap();
    assert_eq!(ts_micros(&t), 0);
    let t = Timestamp::from_parts(2_451_544, 23, 59, 59, 999_998_001).unwrap();
    assert_eq!(ts_micros(&t), -1);
    let epoch = Timestamp::from_parts(2_440_588, 0, 0, 0, 0).unwrap();
    assert_eq!(ts_micros(&epoch), -946_684_800_000_000);
}

#[test]
fn timestamp_from_a_date_and_time() {
    let d = ::time::Date::from_calendar_date(2019, ::time::Month::December, 31).unwrap();
    let p = ::time::PrimitiveDateTime::new(d, ::time::Time::from_hms_nano(23, 58, 57, 123_456_789).unwrap());
    let t = Timestamp::from(p);
    assert_eq!(t.julian_day(), 2_458_849);
    assert_eq!(t.as_hms(), (23, 58, 57));
    assert_eq!(t.nanosecond(), 123_456_789);
    assert_eq!(
        ts_micros(&t),
        (2_458_849 - 2_451_545) * 86_400_000_000 + (23 * 3600 + 58 * 60 + 57) * 1_000_000 + 123_456
    );
    let mut wtr: Vec<u8> = Vec::new();
    to_writer(&mut wtr, &[Value::Timestamp(t)]).unwrap();
    assert_eq!(micros(&wtr), 631_151_937_123_456);
}

#[test]
fn timestamp_of_an_offset_keeps_the_local_clock() {
    let utc = ::time::OffsetDateTime::from_unix_timestamp(946_684_800).unwrap();
    let tokyo = utc.to_offset(::time::UtcOffset::from_hms(9, 0, 0).unwrap());
    assert_eq!(ts_micros(&Timestamp::from(utc)), 0);
    assert_eq!(ts_micros(&Timestamp::from(tokyo)), 9 * 3_600_000_000);
}

#[test]
fn timestamp_parts_are_checked() {
    assert!(Timestamp::from_parts(2_451_545, 24, 0, 0, 0).is_none());
    assert!(Timestamp::from_parts(2_451_545, 0, 60, 0, 0).is_none());
    assert!(Timestamp::from_parts(2_451_545, 0, 0, 60, 0).is_none());
    assert!(Timestamp::from_parts(2_451_545, 0, 0, 0, 1_000_000_000).is_none());
    assert!(Timestamp::from_parts(2_451_545, 23, 59, 59, 999_999_999).is_some());
}

#[test]
fn timestamp_of_the_first_and_last_year() {
    let first = Timestamp::from_parts(-1_930_999, 0, 0, 0, 0).unwrap();
    assert_eq!(ts_micros(&first), (-1_930_999 - 2_451_545) * 86_400_000_000);
    let last = Timestamp::from_parts(5_373_484, 23, 59, 59, 999_999_999).unwrap();
    assert_eq!(ts_micros(&last), (5_373_484 - 2_451_545) * 86_400_000_000 + 86_399_999_999);
}

#[test]
fn a_date_that_the_calendar_lacks_is_an_error() {
    let t = Timestamp::from_parts(i32::MAX, 0, 0, 0, 0).unwrap();
    let mut ser = Ser::new();
    let e = t.serialize(&mut ser).unwrap_err();
    match e {
        Error::Message(m) => {
            assert!(m.starts_with("unable to convert a primitive date time value: "))
        }
        Error::WriteError(_) => panic!("nothing was written"),
    }
    assert!(ser.into_inner().is_empty());
}

#[test]
fn timestamp_from_rfc3339() {
    let t = Timestamp::try_from("2000-01-01T00:00:00Z").unwrap();
    assert_eq!(ts_micros(&t), 0);
    let t = Timestamp::try_from("2019-12-31T23:58:57.123456789+09:00").unwrap();
    assert_eq!(t.julian_day(), 2_458_849);
    assert_eq!(t.as_hms(), (23, 58, 57));
    assert_eq!(t.nanosecond(), 123_456_789);
    assert!(Timestamp::try_from("2000-01-01 00:00:00").is_err());
    assert!(Timestamp::try_from("").is_err());
}
