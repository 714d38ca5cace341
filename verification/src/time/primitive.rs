//! Struct for TIMESTAMP WITHOUT TIME ZONE

use vstd::prelude::*;
use bytes::BytesMut;
use postgres_types::{ToSql, Type};
use crate::item::{Error, Ser};
use crate::time::{converted, pg_micros, pg_payload};
use crate::wire::{column, fits_signed, lemma_be_bytes_len};

verus! {

/// `PrimitiveDateTime` of the time crate: a date and a time of day. Nothing
/// is known of a value of it but through `primitive_parts`.
#[verifier::external_type_specification]
#[verifier::external_body]
pub struct ExPrimitiveDateTime(::time::PrimitiveDateTime);

/// `OffsetDateTime` of the time crate: a date and a time of day with an
/// offset from UTC. It is only carried to `local_date_time`.
#[verifier::external_type_specification]
#[verifier::external_body]
pub struct ExOffsetDateTime(::time::OffsetDateTime);

/// `error::Parse` of the time crate: why a text was refused. It is only
/// handed on.
#[verifier::external_type_specification]
#[verifier::external_body]
pub struct ExParse(::time::error::Parse);

/// The Julian day of January 1st, 2000.
pub const Y2K_JULIAN_DAY: i32 = 2_451_545;

/// Whether the four numbers are a time of day.
pub open spec fn is_time_of_day(hour: int, minute: int, second: int, nanosecond: int) -> bool {
    &&& 0 <= hour < 24
    &&& 0 <= minute < 60
    &&& 0 <= second < 60
    &&& 0 <= nanosecond < 1_000_000_000
}

/// Whether the Julian day lies in the years -9999 to 9999.
pub open spec fn in_four_digit_years(julian_day: int) -> bool {
    -1_930_999 <= julian_day <= 5_373_484
}

/// The nanoseconds from midnight, January 1st, 2000 to a date and time.
pub open spec fn plain_y2k_nanos(
    julian_day: int,
    hour: int,
    minute: int,
    second: int,
    nanosecond: int,
) -> int {
    (julian_day - Y2K_JULIAN_DAY) * 86_400_000_000_000 + ((hour * 60 + minute) * 60 + second)
        * 1_000_000_000 + nanosecond
}

/// The same nanoseconds, of the numbers as a timestamp keeps them.
pub open spec fn y2k_nanos_of(
    julian_day: i32,
    hour: u8,
    minute: u8,
    second: u8,
    nanosecond: u32,
) -> int {
    plain_y2k_nanos(
        julian_day as int,
        hour as int,
        minute as int,
        second as int,
        nanosecond as int,
    )
}

/// The local date and time that `OffsetDateTime::parse` of the time crate
/// reads from a text in the form of RFC 3339, as a Julian day, hour, minute,
/// second and nanosecond; none where it refuses the text.
pub uninterp spec fn rfc3339_local(text: Seq<char>) -> Option<(int, int, int, int, int)>;

/// A timestamp object for postgresql TIMESTAMP WITHOUT TIME ZONE: a date,
/// held as its Julian day, and a time of day.
#[derive(Debug)]
pub struct Timestamp {
    julian_day: i32,
    hour: u8,
    minute: u8,
    second: u8,
    nanosecond: u32,
}

/// The Julian day and the time of day of a `PrimitiveDateTime`, from its
/// methods `to_julian_day` and `as_hms_nano`. The time crate keeps the hour
/// under 24, the minute and the second under 60 and the nanosecond under
/// 1,000,000,000.
#[verifier::external_body]
fn primitive_parts(p: ::time::PrimitiveDateTime) -> (r: (i32, u8, u8, u8, u32))
    ensures
        is_time_of_day(r.1 as int, r.2 as int, r.3 as int, r.4 as int),
{
    let (hour, minute, second, nanosecond) = p.as_hms_nano();
    (p.to_julian_day(), hour, minute, second, nanosecond)
}

/// The date and the time of day that an `OffsetDateTime` shows in its own
/// offset, from `PrimitiveDateTime::new` of the time crate.
#[verifier::external_body]
fn local_date_time(o: ::time::OffsetDateTime) -> (p: ::time::PrimitiveDateTime) {
    ::time::PrimitiveDateTime::new(o.date(), o.time())
}

/// Reads a text in the form of RFC 3339 with `OffsetDateTime::parse` of the
/// time crate, and hands back the local date and time as plain numbers.
#[verifier::external_body]
fn parse_rfc3339(text: &str) -> (r: Result<(i32, u8, u8, u8, u32), ::time::error::Parse>)
    ensures
        r is Ok <==> rfc3339_local(text@) is Some,
        r matches Ok(p) ==> rfc3339_local(text@) == Some(
            (p.0 as int, p.1 as int, p.2 as int, p.3 as int, p.4 as int),
        ) && is_time_of_day(p.1 as int, p.2 as int, p.3 as int, p.4 as int),
{
    let o = ::time::OffsetDateTime::parse(text, &::time::format_description::well_known::Rfc3339)?;
    let (hour, minute, second, nanosecond) = o.time().as_hms_nano();
    Ok((o.date().to_julian_day(), hour, minute, second, nanosecond))
}

/// The TIMESTAMP bytes of a date and time, from `ToSql::to_sql` of
/// postgres_types for `PrimitiveDateTime`. It takes the distance from
/// midnight, January 1st, 2000 in whole microseconds, refuses one that is no
/// `i64`, and writes it as a big-endian `i64`. The date is made with
/// `Date::from_julian_day` and the time with `Time::from_hms_nano`, which
/// take every Julian day of the years -9999 to 9999 and every time of day;
/// the microseconds of those years fit.
#[verifier::external_body]
fn primitive_to_sql(julian_day: i32, hour: u8, minute: u8, second: u8, nanosecond: u32) -> (r:
    Result<Vec<u8>, String>)
    ensures
        r matches Ok(b) ==> fits_signed(
            pg_micros(y2k_nanos_of(julian_day, hour, minute, second, nanosecond)),
            8,
        ) && b@ == pg_payload(y2k_nanos_of(julian_day, hour, minute, second, nanosecond)),
        in_four_digit_years(julian_day as int) && is_time_of_day(
            hour as int,
            minute as int,
            second as int,
            nanosecond as int,
        ) ==> r is Ok,
{
    let date = match ::time::Date::from_julian_day(julian_day) {
        Ok(date) => date,
        Err(e) => return Err(e.to_string()),
    };
    let time = match ::time::Time::from_hms_nano(hour, minute, second, nanosecond) {
        Ok(time) => time,
        Err(e) => return Err(e.to_string()),
    };
    let mut buf = BytesMut::with_capacity(8);
    match ::time::PrimitiveDateTime::new(date, time).to_sql(&Type::TIMESTAMP, &mut buf) {
        Ok(_) => Ok(buf.to_vec()),
        Err(e) => Err(e.to_string()),
    }
}

impl From<::time::PrimitiveDateTime> for Timestamp {
    fn from(st: ::time::PrimitiveDateTime) -> (r: Self) {
        let (julian_day, hour, minute, second, nanosecond) = primitive_parts(st);
        Timestamp { julian_day, hour, minute, second, nanosecond }
    }
}

impl vstd::std_specs::convert::FromSpecImpl<::time::PrimitiveDateTime> for Timestamp {
    open spec fn obeys_from_spec() -> bool {
        false
    }

    closed spec fn from_spec(st: ::time::PrimitiveDateTime) -> Self {
        arbitrary()
    }
}

impl From<::time::OffsetDateTime> for Timestamp {
    fn from(o: ::time::OffsetDateTime) -> (r: Self) {
        let p: ::time::PrimitiveDateTime = local_date_time(o);
        Timestamp::from(p)
    }
}

impl vstd::std_specs::convert::FromSpecImpl<::time::OffsetDateTime> for Timestamp {
    open spec fn obeys_from_spec() -> bool {
        false
    }

    closed spec fn from_spec(o: ::time::OffsetDateTime) -> Self {
        arbitrary()
    }
}

/// Converts from a RFC3339 &str
impl<'a> TryFrom<&'a str> for Timestamp {
    type Error = ::time::error::Parse;

    fn try_from(rfc3339: &'a str) -> (r: Result<Self, Self::Error>)
        ensures
            r is Ok <==> rfc3339_local(rfc3339@) is Some,
            r matches Ok(t) ==> rfc3339_local(rfc3339@) == Some(t.parts()),
    {
        match parse_rfc3339(rfc3339) {
            Ok(p) => {
                let made = Timestamp::from_parts(p.0, p.1, p.2, p.3, p.4);
                Ok(made.unwrap())
            },
            Err(e) => Err(e),
        }
    }
}

impl<'a> vstd::std_specs::convert::TryFromSpecImpl<&'a str> for Timestamp {
    open spec fn obeys_try_from_spec() -> bool {
        false
    }

    closed spec fn try_from_spec(rfc3339: &'a str) -> Result<Self, Self::Error> {
        arbitrary()
    }
}

impl Timestamp {
    #[verifier::type_invariant]
    spec fn wf(&self) -> bool {
        is_time_of_day(
            self.hour as int,
            self.minute as int,
            self.second as int,
            self.nanosecond as int,
        )
    }

    /// The Julian day, the hour, the minute, the second and the nanosecond.
    pub closed spec fn parts(&self) -> (int, int, int, int, int) {
        (
            self.julian_day as int,
            self.hour as int,
            self.minute as int,
            self.second as int,
            self.nanosecond as int,
        )
    }

    /// The nanoseconds from midnight, January 1st, 2000 to this date and time.
    pub open spec fn y2k_nanos(&self) -> int {
        plain_y2k_nanos(
            self.parts().0,
            self.parts().1,
            self.parts().2,
            self.parts().3,
            self.parts().4,
        )
    }

    /// The date and time on the wire: the microseconds from midnight,
    /// January 1st, 2000, as a signed 64-bit integer.
    pub open spec fn payload(&self) -> Seq<u8> {
        pg_payload(self.y2k_nanos())
    }

    /// The timestamp of a Julian day and a time of day; none where the four
    /// numbers are no time of day.
    pub fn from_parts(julian_day: i32, hour: u8, minute: u8, second: u8, nanosecond: u32) -> (r:
        Option<Timestamp>)
        ensures
            r is Some <==> is_time_of_day(
                hour as int,
                minute as int,
                second as int,
                nanosecond as int,
            ),
            r matches Some(t) ==> t.parts() == (
                julian_day as int,
                hour as int,
                minute as int,
                second as int,
                nanosecond as int,
            ),
    {
        if hour < 24 && minute < 60 && second < 60 && nanosecond < 1_000_000_000 {
            Some(Timestamp { julian_day, hour, minute, second, nanosecond })
        } else {
            None
        }
    }

    /// The Julian day of the date.
    pub fn julian_day(&self) -> (d: i32)
        ensures
            d == self.parts().0,
    {
        self.julian_day
    }

    /// The clock hour, minute and second.
    pub fn as_hms(&self) -> (hms: (u8, u8, u8))
        ensures
            hms.0 == self.parts().1,
            hms.1 == self.parts().2,
            hms.2 == self.parts().3,
            hms.0 < 24 && hms.1 < 60 && hms.2 < 60,
    {
        proof {
            use_type_invariant(self);
        }
        (self.hour, self.minute, self.second)
    }

    /// The nanosecond within the second.
    pub fn nanosecond(&self) -> (n: u32)
        ensures
            n == self.parts().4,
            n < 1_000_000_000,
    {
        proof {
            use_type_invariant(self);
        }
        self.nanosecond
    }

    /// The date and time on the wire. Every date of the years -9999 to 9999
    /// has one; a date that the calendar lacks, and one whose microseconds
    /// do not fit, is an error.
    pub fn to_payload(&self) -> (r: Result<Vec<u8>, Error>)
        ensures
            r matches Ok(b) ==> fits_signed(pg_micros(self.y2k_nanos()), 8) && b@
                == self.payload(),
            r is Err ==> r->Err_0 is Message,
            in_four_digit_years(self.parts().0) ==> r is Ok,
    {
        proof {
            use_type_invariant(self);
        }
        let outcome = primitive_to_sql(
            self.julian_day,
            self.hour,
            self.minute,
            self.second,
            self.nanosecond,
        );
        converted(outcome, "unable to convert a primitive date time value: ")
    }

    /// Writes the date and time as one column of eight bytes. Nothing is
    /// written of a date and time that cannot be converted.
    pub fn serialize(&self, ser: &mut Ser) -> (r: Result<(), Error>)
        ensures
            r is Ok ==> fits_signed(pg_micros(self.y2k_nanos()), 8) && final(ser)@ == old(ser)@
                + column(self.payload()),
            r is Err ==> r->Err_0 is Message && final(ser)@ == old(ser)@,
            in_four_digit_years(self.parts().0) ==> r is Ok,
    {
        match self.to_payload() {
            Ok(buf) => {
                proof {
                    lemma_be_bytes_len(pg_micros(self.y2k_nanos()), 8);
                }
                ser.serialize_bytes(buf.as_slice())
            },
            Err(e) => Err(e),
        }
    }
}

} // verus!
