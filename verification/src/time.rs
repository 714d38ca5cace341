//! Time points, as PostgreSQL counts them: in whole microseconds from
//! midnight, January 1st, 2000.

pub mod primitive;
pub mod systemtime;

use vstd::prelude::*;
use vstd::string::StringExecFns;
use crate::item::{refused, Error};
use crate::wire::{
    be_bytes, be_signed, fits_signed, lemma_be_bytes_len, lemma_radix_values,
    lemma_signed_round_trip,
};

verus! {

/// The microseconds that stand for a time point `nanos` nanoseconds after
/// midnight, January 1st, 2000 (before it, where `nanos` is negative): the
/// whole microseconds of the distance, with the sign of `nanos`.
pub open spec fn pg_micros(nanos: int) -> int {
    if nanos >= 0 {
        nanos / 1000
    } else {
        -((-nanos) / 1000)
    }
}

/// Whether the microseconds of a time point and their negation are both
/// signed 64-bit integers.
pub open spec fn representable(nanos: int) -> bool {
    -0x7fff_ffff_ffff_ffff <= pg_micros(nanos) <= 0x7fff_ffff_ffff_ffff
}

/// A time point on the wire: its microseconds as a signed 64-bit integer.
pub open spec fn pg_payload(nanos: int) -> Seq<u8> {
    be_bytes(pg_micros(nanos), 8)
}

/// The payload of a time point is eight bytes that spell its microseconds.
pub proof fn lemma_payload_reads_back(nanos: int)
    requires
        fits_signed(pg_micros(nanos), 8),
    ensures
        pg_payload(nanos).len() == 8,
        be_signed(pg_payload(nanos)) == pg_micros(nanos),
{
    lemma_be_bytes_len(pg_micros(nanos), 8);
    lemma_signed_round_trip(pg_micros(nanos), 8);
}

/// A time point that is representable has microseconds of 64 bits.
pub proof fn lemma_representable_fits(nanos: int)
    requires
        representable(nanos),
    ensures
        fits_signed(pg_micros(nanos), 8),
{
    lemma_radix_values();
}

/// One millisecond later is 1000 microseconds more. The one exception are
/// two time points with midnight, January 1st, 2000 strictly between them
/// that do not fall on whole microseconds: the parts of a microsecond are
/// dropped on both sides of that midnight, and they count 999.
pub proof fn lemma_millisecond_apart(nanos: int)
    requires
        nanos >= 0 || nanos + 1_000_000 <= 0 || nanos % 1000 == 0,
    ensures
        pg_micros(nanos + 1_000_000) - pg_micros(nanos) == 1000,
{
}

/// The payloads of two time points one millisecond apart spell integers
/// that differ by 1000.
pub proof fn lemma_millisecond_apart_on_wire(nanos: int)
    requires
        fits_signed(pg_micros(nanos), 8),
        fits_signed(pg_micros(nanos + 1_000_000), 8),
        nanos >= 0 || nanos + 1_000_000 <= 0 || nanos % 1000 == 0,
    ensures
        be_signed(pg_payload(nanos + 1_000_000)) - be_signed(pg_payload(nanos)) == 1000,
{
    lemma_millisecond_apart(nanos);
    lemma_payload_reads_back(nanos);
    lemma_payload_reads_back(nanos + 1_000_000);
}

/// What a conversion of a time point came to: its bytes as they are, or
/// its failure as an encoding error, behind the words of `context`.
pub fn converted(outcome: Result<Vec<u8>, String>, context: &str) -> (r: Result<Vec<u8>, Error>)
    ensures
        outcome matches Ok(b) ==> (r matches Ok(p) && p@ == b@),
        outcome matches Err(e) ==> refused(r, context@ + e@),
{
    match outcome {
        Ok(buf) => Ok(buf),
        Err(e) => Err(Error::Message(String::from_str(context).concat(e.as_str()))),
    }
}

} // verus!
