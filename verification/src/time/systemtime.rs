//! Struct for TIMESTAMP WITH TIME ZONE

use vstd::prelude::*;
use vstd::string::StringExecFns;
use core::time::Duration;
use std::time::SystemTime;
use bytes::BytesMut;
use postgres_types::{ToSql, Type};
use crate::item::{refused, Error, Ser};
use crate::time::{
    converted, lemma_payload_reads_back, lemma_representable_fits, pg_payload, representable,
};
use crate::wire::column;

verus! {

/// `SystemTime` of std: a reading of the system clock. Nothing is known of
/// a value of it but through `since_unix_epoch`.
#[verifier::external_type_specification]
#[verifier::external_body]
pub struct ExSystemTime(SystemTime);

/// Seconds from midnight, January 1st, 1970 to midnight, January 1st, 2000.
pub const Y2K_UNIX_SECS: u64 = 946_684_800;

/// The nanoseconds from the Unix epoch to a time point `secs` seconds and
/// `nanos` nanoseconds after it, or before it.
pub open spec fn unix_nanos(before_epoch: bool, secs: u64, nanos: u32) -> int {
    if before_epoch {
        -(secs * 1_000_000_000 + nanos)
    } else {
        secs * 1_000_000_000 + nanos
    }
}

/// The nanoseconds from midnight, January 1st, 2000 to the same time point.
pub open spec fn y2k_nanos(before_epoch: bool, secs: u64, nanos: u32) -> int {
    unix_nanos(before_epoch, secs, nanos) - Y2K_UNIX_SECS * 1_000_000_000
}

/// The message for a time point whose microseconds do not fit the column.
pub open spec fn too_large() -> Seq<char> {
    "unable to convert a system time value: value too large to transmit"@
}

/// A timestamp object for postgresql TIMESTAMP WITH TIME ZONE: a point in
/// time, held as its distance from the Unix epoch.
pub struct Timestampz {
    before_epoch: bool,
    secs: u64,
    nanos: u32,
}

/// Where a `SystemTime` stands against the Unix epoch, from
/// `SystemTime::duration_since` of std: whether it is earlier, and the whole
/// seconds and the nanoseconds of the distance. The nanoseconds of a
/// `Duration` are less than a second.
#[verifier::external_body]
fn since_unix_epoch(st: SystemTime) -> (r: (bool, u64, u32))
    ensures
        r.2 < 1_000_000_000,
{
    match st.duration_since(SystemTime::UNIX_EPOCH) {
        Ok(d) => (false, d.as_secs(), d.subsec_nanos()),
        Err(e) => (true, e.duration().as_secs(), e.duration().subsec_nanos()),
    }
}

/// The time point `elapsed` after the Unix epoch, from
/// `SystemTime::checked_add` of std, which gives none where the clock of
/// this machine cannot hold it.
#[verifier::external_body]
fn unix_epoch_plus(elapsed: Duration) -> (r: Option<SystemTime>) {
    SystemTime::UNIX_EPOCH.checked_add(elapsed)
}

/// The TIMESTAMPTZ bytes of a time point, from `ToSql::to_sql` of
/// postgres_types for `SystemTime`. The time point is first made from the
/// Unix epoch, with `SystemTime::checked_add` or, for an earlier one, with
/// `SystemTime::checked_sub`; an error comes back where the clock of this
/// machine cannot hold it. `to_sql` takes the distance from midnight,
/// January 1st, 2000 as whole seconds times 1,000,000 plus nanoseconds
/// divided by 1000, negates that for an earlier time point, and writes it as
/// a big-endian `i64`. It multiplies in `u64` and casts to `i64` without a
/// check: the time points that do not fit are left out here.
#[verifier::external_body]
fn system_time_to_sql(before_epoch: bool, secs: u64, nanos: u32) -> (r: Result<Vec<u8>, String>)
    requires
        nanos < 1_000_000_000,
        representable(y2k_nanos(before_epoch, secs, nanos)),
    ensures
        r matches Ok(b) ==> b@ == pg_payload(y2k_nanos(before_epoch, secs, nanos)),
{
    let d = Duration::new(secs, nanos);
    let at = if before_epoch {
        SystemTime::UNIX_EPOCH.checked_sub(d)
    } else {
        SystemTime::UNIX_EPOCH.checked_add(d)
    };
    let mut buf = BytesMut::with_capacity(8);
    match at {
        None => Err(String::from("out of the range of the system clock")),
        Some(st) => match st.to_sql(&Type::TIMESTAMPTZ, &mut buf) {
            Ok(_) => Ok(buf.to_vec()),
            Err(e) => Err(e.to_string()),
        },
    }
}

impl From<SystemTime> for Timestampz {
    fn from(st: SystemTime) -> (r: Self) {
        let (before_epoch, secs, nanos) = since_unix_epoch(st);
        Timestampz { before_epoch, secs, nanos }
    }
}

impl vstd::std_specs::convert::FromSpecImpl<SystemTime> for Timestampz {
    open spec fn obeys_from_spec() -> bool {
        false
    }

    closed spec fn from_spec(st: SystemTime) -> Self {
        arbitrary()
    }
}

impl TryFrom<Duration> for Timestampz {
    type Error = String;

    fn try_from(elapsed_from_epoch: Duration) -> (r: Result<Self, Self::Error>)
        ensures
            r matches Err(e) ==> e@ == "invalid duration"@,
    {
        let o: Option<SystemTime> = unix_epoch_plus(elapsed_from_epoch);
        Timestampz::from_checked(o)
    }
}

impl vstd::std_specs::convert::TryFromSpecImpl<Duration> for Timestampz {
    open spec fn obeys_try_from_spec() -> bool {
        false
    }

    closed spec fn try_from_spec(elapsed_from_epoch: Duration) -> Result<Self, Self::Error> {
        arbitrary()
    }
}

impl Timestampz {
    #[verifier::type_invariant]
    spec fn wf(&self) -> bool {
        self.nanos < 1_000_000_000
    }

    /// The nanoseconds from midnight, January 1st, 2000 to this time point.
    pub closed spec fn y2k_nanos(&self) -> int {
        y2k_nanos(self.before_epoch, self.secs, self.nanos)
    }

    /// The time point on the wire: its microseconds from midnight, January
    /// 1st, 2000, as a signed 64-bit integer.
    pub open spec fn payload(&self) -> Seq<u8> {
        pg_payload(self.y2k_nanos())
    }

    /// Whether the microseconds of this time point fit the column.
    pub open spec fn representable(&self) -> bool {
        representable(self.y2k_nanos())
    }

    /// What adding a duration to the Unix epoch came to: the time point, or,
    /// where the clock of this machine could not hold the sum, the error
    /// `invalid duration`.
    pub fn from_checked(sum: Option<SystemTime>) -> (r: Result<Timestampz, String>)
        ensures
            sum is Some <==> r is Ok,
            r matches Err(e) ==> e@ == "invalid duration"@,
    {
        match sum {
            Some(s) => Ok(Timestampz::from(s)),
            None => Err(String::from_str("invalid duration")),
        }
    }

    /// Whether the microseconds of this time point fit the column.
    pub fn is_representable(&self) -> (b: bool)
        ensures
            b == self.representable(),
    {
        proof {
            use_type_invariant(self);
        }
        let unix: u128 = (self.secs as u128) * 1_000_000_000 + (self.nanos as u128);
        let y2k: u128 = (Y2K_UNIX_SECS as u128) * 1_000_000_000;
        let distance: u128 = if self.before_epoch {
            unix + y2k
        } else if unix >= y2k {
            unix - y2k
        } else {
            y2k - unix
        };
        distance / 1000 <= 0x7fff_ffff_ffff_ffff
    }

    /// The time point on the wire. A time point whose microseconds do not
    /// fit is an error, and so is one that the clock of this machine cannot
    /// hold.
    pub fn to_payload(&self) -> (r: Result<Vec<u8>, Error>)
        ensures
            r matches Ok(b) ==> self.representable() && b@ == self.payload(),
            r is Err ==> r->Err_0 is Message,
            !self.representable() ==> refused(r, too_large()),
    {
        proof {
            use_type_invariant(self);
        }
        if !self.is_representable() {
            return Err(
                Error::custom("unable to convert a system time value: value too large to transmit"),
            );
        }
        let outcome = system_time_to_sql(self.before_epoch, self.secs, self.nanos);
        converted(outcome, "unable to convert a system time value: ")
    }

    /// Writes the time point as one column of eight bytes. Nothing is written
    /// of a time point that cannot be converted.
    pub fn serialize(&self, ser: &mut Ser) -> (r: Result<(), Error>)
        ensures
            r is Ok ==> self.representable() && final(ser)@ == old(ser)@ + column(self.payload()),
            r is Err ==> r->Err_0 is Message && final(ser)@ == old(ser)@,
            !self.representable() ==> refused(r, too_large()),
    {
        match self.to_payload() {
            Ok(buf) => {
                proof {
                    lemma_representable_fits(self.y2k_nanos());
                    lemma_payload_reads_back(self.y2k_nanos());
                }
                ser.serialize_bytes(buf.as_slice())
            },
            Err(e) => Err(e),
        }
    }
}

} // verus!
