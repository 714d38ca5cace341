//! Blob structs.

use vstd::prelude::*;
use vstd::slice::slice_to_vec;
use vstd::string::StringSliceAdditionalSpecFns;
use crate::item::{refused, too_long, Error, Ser};
use crate::wire::{column, max_payload};

verus! {

/// A Blob for PostgreSQL
pub struct PgBlob {
    dat: Vec<u8>,
}

impl View for PgBlob {
    type V = Seq<u8>;

    closed spec fn view(&self) -> Seq<u8> {
        self.dat@
    }
}

impl From<Vec<u8>> for PgBlob {
    fn from(v: Vec<u8>) -> (r: Self)
        ensures
            r@ == v@,
    {
        Self { dat: v }
    }
}

impl vstd::std_specs::convert::FromSpecImpl<Vec<u8>> for PgBlob {
    open spec fn obeys_from_spec() -> bool {
        true
    }

    closed spec fn from_spec(v: Vec<u8>) -> Self {
        PgBlob { dat: v }
    }
}

impl From<&[u8]> for PgBlob {
    fn from(s: &[u8]) -> (r: Self)
        ensures
            r@ == s@,
    {
        Self::from(slice_to_vec(s))
    }
}

impl vstd::std_specs::convert::FromSpecImpl<&[u8]> for PgBlob {
    open spec fn obeys_from_spec() -> bool {
        false
    }

    closed spec fn from_spec(s: &[u8]) -> Self {
        arbitrary()
    }
}

impl From<&str> for PgBlob {
    fn from(s: &str) -> (r: Self)
        ensures
            r@ == s.spec_bytes(),
    {
        let b: &[u8] = s.as_bytes();
        Self::from(b)
    }
}

impl vstd::std_specs::convert::FromSpecImpl<&str> for PgBlob {
    open spec fn obeys_from_spec() -> bool {
        false
    }

    closed spec fn from_spec(s: &str) -> Self {
        arbitrary()
    }
}

impl PgBlob {
    /// The bytes of the blob.
    pub fn as_slice(&self) -> (s: &[u8])
        ensures
            s@ == self@,
    {
        self.dat.as_slice()
    }

    /// Writes the bytes as one column, as they are. A blob too long for a
    /// column is refused, and nothing is written.
    pub fn serialize(&self, ser: &mut Ser) -> (r: Result<(), Error>)
        ensures
            self@.len() <= max_payload() ==> r is Ok && final(ser)@ == old(ser)@ + column(self@),
            self@.len() > max_payload() ==> refused(r, too_long()) && final(ser)@ == old(ser)@,
    {
        let s: &[u8] = self.as_slice();
        ser.serialize_bytes(s)
    }
}

} // verus!
