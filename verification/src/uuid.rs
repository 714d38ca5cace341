//! Uuid related structs

use vstd::prelude::*;
use crate::item::{Error, Ser};
use crate::wire::{
    be_bytes, be_unsigned, column, lemma_be_bytes_len, lemma_radix_values,
    lemma_unsigned_round_trip, put_unsigned,
};

verus! {

/// A 128-bit identifier.
#[derive(Debug)]
pub struct Uuid(pub u128);

impl From<u128> for Uuid {
    fn from(u: u128) -> (r: Self) {
        Self(u)
    }
}

impl vstd::std_specs::convert::FromSpecImpl<u128> for Uuid {
    open spec fn obeys_from_spec() -> bool {
        true
    }

    open spec fn from_spec(u: u128) -> Self {
        Uuid(u)
    }
}

impl Uuid {
    /// The identifier on the wire: the 16 bytes of the integer, most
    /// significant first, with no field of it reordered.
    pub open spec fn payload(&self) -> Seq<u8> {
        be_bytes(self.0 as int, 16)
    }

    /// The payload is 16 bytes that spell the identifier.
    pub proof fn lemma_reads_back(&self)
        ensures
            self.payload().len() == 16,
            be_unsigned(self.payload()) == self.0,
    {
        lemma_radix_values();
        lemma_be_bytes_len(self.0 as int, 16);
        lemma_unsigned_round_trip(self.0 as int, 16);
    }

    /// The 16 bytes of the identifier, most significant first.
    pub fn to_payload(&self) -> (b: Vec<u8>)
        ensures
            b@ == self.payload(),
    {
        let mut b: Vec<u8> = Vec::with_capacity(16);
        put_unsigned(&mut b, self.0, 16);
        b
    }

    /// Writes the identifier as one column of 16 bytes.
    pub fn serialize(&self, ser: &mut Ser) -> (r: Result<(), Error>)
        ensures
            r is Ok,
            final(ser)@ == old(ser)@ + column(self.payload()),
    {
        proof {
            self.lemma_reads_back();
        }
        let b: Vec<u8> = self.to_payload();
        ser.serialize_bytes(b.as_slice())
    }
}

} // verus!
