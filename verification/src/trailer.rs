//! Functions for pgcopy trailer(-1 as i16)

use vstd::prelude::*;
use crate::wire::{be_bytes, put_i16};

verus! {

/// The trailer: -1 in the place of a row's column count.
pub open spec fn pgcopy_trailer() -> Seq<u8> {
    be_bytes(-1, 2)
}

/// The trailer is the two bytes ff ff.
pub proof fn lemma_trailer_bytes()
    ensures
        pgcopy_trailer() == seq![0xffu8, 0xffu8],
{
    reveal_with_fuel(be_bytes, 3);
    assert(pgcopy_trailer() == seq![0xffu8, 0xffu8]);
}

/// Writes trailer bytes(-1 as i16)
pub fn write_trailer(wtr: &mut Vec<u8>)
    ensures
        final(wtr)@ == old(wtr)@ + pgcopy_trailer(),
{
    put_i16(wtr, -1);
}

} // verus!
