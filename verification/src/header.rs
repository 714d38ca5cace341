//! The PGCOPY header.

use vstd::prelude::*;
use crate::wire::put_slice;

verus! {

/// The header of a binary COPY stream: the signature `PGCOPY\n\xff\r\n\0`,
/// the flags field and the length of the header extension, both zero.
pub open spec fn pgcopy_header() -> Seq<u8> {
    seq![
        0x50u8, 0x47u8, 0x43u8, 0x4fu8, 0x50u8, 0x59u8,
        0x0au8, 0xffu8, 0x0du8, 0x0au8, 0x00u8,
        0u8, 0u8, 0u8, 0u8,
        0u8, 0u8, 0u8, 0u8,
    ]
}

/// Writes a PGCOPY header(e.g, PGCOPY\n\xff\r\n\0....)
pub trait HeaderWriter {
    /// The bytes that this writer puts at the start of a stream.
    spec fn header(&self) -> Seq<u8>;

    fn write_header(&self, wtr: &mut Vec<u8>)
        ensures
            final(wtr)@ == old(wtr)@ + self.header(),
    ;
}

struct HeaderWriterDefault {}

impl HeaderWriter for HeaderWriterDefault {
    open spec fn header(&self) -> Seq<u8> {
        pgcopy_header()
    }

    fn write_header(&self, wtr: &mut Vec<u8>) {
        let signature: Vec<u8> = vec![0x50, 0x47, 0x43, 0x4f, 0x50, 0x59];
        put_slice(wtr, signature.as_slice());
        let rest: Vec<u8> = vec![0x0a, 0xff, 0x0d, 0x0a, 0x00];
        put_slice(wtr, rest.as_slice());
        let zero: Vec<u8> = vec![0, 0, 0, 0];
        put_slice(wtr, zero.as_slice());
        put_slice(wtr, zero.as_slice());
        assert(wtr@ == old(wtr)@ + pgcopy_header());
    }
}

/// Creates a default [`HeaderWriter`]
pub fn header_writer_default_new() -> (hwtr: impl HeaderWriter)
    ensures
        hwtr.header() == pgcopy_header(),
{
    HeaderWriterDefault {  }
}

} // verus!
