//! Big-endian integer layouts and the length-prefixed column frame.
//!
//! Every multi-byte field of the PGCOPY binary format is written in network
//! byte order. The functions here say what those bytes are, how they are read
//! back, and append them to a byte buffer.

use vstd::prelude::*;

verus! {

/// The number of values that `width` bytes can spell: 256 to the power `width`.
pub open spec fn radix(width: nat) -> int
    decreases width,
{
    if width == 0 {
        1
    } else {
        256 * radix((width - 1) as nat)
    }
}

/// The `width` low-order bytes of `v` in two's complement, most significant
/// byte first.
pub open spec fn be_bytes(v: int, width: nat) -> Seq<u8>
    decreases width,
{
    if width == 0 {
        Seq::empty()
    } else {
        be_bytes(v / 256, (width - 1) as nat).push((v % 256) as u8)
    }
}

/// The unsigned integer that `s` spells, most significant byte first.
pub open spec fn be_unsigned(s: Seq<u8>) -> int
    decreases s.len(),
{
    if s.len() == 0 {
        0
    } else {
        256 * be_unsigned(s.drop_last()) + s.last() as int
    }
}

/// The two's-complement integer that `s` spells, most significant byte first.
pub open spec fn be_signed(s: Seq<u8>) -> int {
    let u = be_unsigned(s);
    if 2 * u >= radix(s.len()) {
        u - radix(s.len())
    } else {
        u
    }
}

/// Whether `v` is a two's-complement integer of `width` bytes.
pub open spec fn fits_signed(v: int, width: nat) -> bool {
    -radix(width) <= 2 * v < radix(width)
}

/// Whether `v` is an unsigned integer of `width` bytes.
pub open spec fn fits_unsigned(v: int, width: nat) -> bool {
    0 <= v < radix(width)
}

/// One column: the payload's length as a signed 32-bit integer, then the
/// payload itself.
pub open spec fn column(payload: Seq<u8>) -> Seq<u8> {
    be_bytes(payload.len() as int, 4) + payload
}

/// The column that stands for "no value": the length -1 and no payload.
pub open spec fn null_column() -> Seq<u8> {
    be_bytes(-1, 4)
}

/// The longest payload whose length a column prefix can hold.
pub open spec fn max_payload() -> int {
    0x7fff_ffff
}

/// The radix of the widths that the format uses.
pub proof fn lemma_radix_values()
    ensures
        radix(0) == 1,
        radix(1) == 0x100,
        radix(2) == 0x1_0000,
        radix(4) == 0x1_0000_0000,
        radix(8) == 0x1_0000_0000_0000_0000,
        radix(16) == 0x1_0000_0000_0000_0000_0000_0000_0000_0000,
{
    reveal_with_fuel(radix, 5);
    assert(radix(4) == 0x1_0000_0000);
    assert(radix(8) == 0x1_0000_0000 * radix(4));
    assert(radix(12) == 0x1_0000_0000 * radix(8));
    assert(radix(16) == 0x1_0000_0000 * radix(12));
}

/// A radix is positive.
pub proof fn lemma_radix_positive(width: nat)
    ensures
        radix(width) > 0,
    decreases width,
{
    if width > 0 {
        lemma_radix_positive((width - 1) as nat);
    }
}

/// An integer laid out in `width` bytes takes `width` bytes.
pub proof fn lemma_be_bytes_len(v: int, width: nat)
    ensures
        be_bytes(v, width).len() == width,
    decreases width,
{
    if width > 0 {
        lemma_be_bytes_len(v / 256, (width - 1) as nat);
    }
}

/// Only the residue of `v` modulo the radix reaches the bytes: this is what
/// makes the layout two's complement.
pub proof fn lemma_be_bytes_periodic(v: int, width: nat)
    ensures
        be_bytes(v + radix(width), width) == be_bytes(v, width),
    decreases width,
{
    if width > 0 {
        let r = radix((width - 1) as nat);
        assert((v + 256 * r) / 256 == v / 256 + r);
        assert((v + 256 * r) % 256 == v % 256);
        lemma_be_bytes_periodic(v / 256, (width - 1) as nat);
    }
}

/// Reading an unsigned integer back from its bytes gives the integer.
pub proof fn lemma_unsigned_round_trip(v: int, width: nat)
    requires
        fits_unsigned(v, width),
    ensures
        be_unsigned(be_bytes(v, width)) == v,
    decreases width,
{
    if width > 0 {
        let s = be_bytes(v, width);
        let head = be_bytes(v / 256, (width - 1) as nat);
        assert(s.drop_last() == head);
        assert(s.last() == (v % 256) as u8);
        lemma_unsigned_round_trip(v / 256, (width - 1) as nat);
    }
}

/// Reading a signed integer back from its bytes gives the integer.
pub proof fn lemma_signed_round_trip(v: int, width: nat)
    requires
        fits_signed(v, width),
    ensures
        be_signed(be_bytes(v, width)) == v,
{
    lemma_be_bytes_len(v, width);
    lemma_radix_positive(width);
    if v >= 0 {
        lemma_unsigned_round_trip(v, width);
    } else {
        lemma_be_bytes_periodic(v, width);
        lemma_unsigned_round_trip(v + radix(width), width);
    }
}

/// A column is four bytes longer than its payload, starts with the payload's
/// length and goes on with the payload.
pub proof fn lemma_column_frame(payload: Seq<u8>)
    requires
        payload.len() <= max_payload(),
    ensures
        column(payload).len() == 4 + payload.len(),
        be_signed(column(payload).subrange(0, 4)) == payload.len(),
        column(payload).subrange(4, 4 + payload.len() as int) == payload,
{
    let n = payload.len() as int;
    lemma_be_bytes_len(n, 4);
    lemma_radix_values();
    lemma_signed_round_trip(n, 4);
    assert(column(payload).subrange(0, 4) == be_bytes(n, 4));
}

/// The null column is four bytes that read as -1: no column with a payload,
/// not even an empty one, looks like it.
pub proof fn lemma_null_column_frame()
    ensures
        null_column().len() == 4,
        be_signed(null_column()) == -1,
        forall|payload: Seq<u8>|
            payload.len() <= max_payload() ==> #[trigger] column(payload) != null_column(),
{
    lemma_be_bytes_len(-1, 4);
    lemma_radix_values();
    lemma_signed_round_trip(-1, 4);
    assert forall|payload: Seq<u8>| payload.len() <= max_payload() implies #[trigger] column(
        payload,
    ) != null_column() by {
        lemma_column_frame(payload);
        if column(payload) == null_column() {
            assert(column(payload).subrange(0, 4) == null_column());
        }
    }
}

/// Appends the `width` low-order bytes of `v`, most significant first.
pub fn put_unsigned(buf: &mut Vec<u8>, v: u128, width: usize)
    ensures
        final(buf)@ == old(buf)@ + be_bytes(v as int, width as nat),
    decreases width,
{
    if width > 0 {
        put_unsigned(buf, v / 256, width - 1);
        buf.push((v % 256) as u8);
        assert(buf@ == old(buf)@ + be_bytes(v as int, width as nat));
    } else {
        assert(buf@ == old(buf)@ + be_bytes(v as int, 0));
    }
}

/// Appends a signed 16-bit integer in network byte order.
pub fn put_i16(buf: &mut Vec<u8>, v: i16)
    ensures
        final(buf)@ == old(buf)@ + be_bytes(v as int, 2),
{
    proof {
        lemma_radix_values();
        lemma_be_bytes_periodic(v as int, 2);
    }
    let residue: u128 = if v >= 0 {
        v as u128
    } else {
        (v as i32 + 0x1_0000) as u128
    };
    put_unsigned(buf, residue, 2);
}

/// Appends a signed 32-bit integer in network byte order.
pub fn put_i32(buf: &mut Vec<u8>, v: i32)
    ensures
        final(buf)@ == old(buf)@ + be_bytes(v as int, 4),
{
    proof {
        lemma_radix_values();
        lemma_be_bytes_periodic(v as int, 4);
    }
    let residue: u128 = if v >= 0 {
        v as u128
    } else {
        (v as i64 + 0x1_0000_0000) as u128
    };
    put_unsigned(buf, residue, 4);
}

/// Appends a signed 64-bit integer in network byte order.
pub fn put_i64(buf: &mut Vec<u8>, v: i64)
    ensures
        final(buf)@ == old(buf)@ + be_bytes(v as int, 8),
{
    proof {
        lemma_radix_values();
        lemma_be_bytes_periodic(v as int, 8);
    }
    let residue: u128 = if v >= 0 {
        v as u128
    } else {
        (v as i128 + 0x1_0000_0000_0000_0000) as u128
    };
    put_unsigned(buf, residue, 8);
}

/// Appends `bytes` as they are.
pub fn put_slice(buf: &mut Vec<u8>, bytes: &[u8])
    ensures
        final(buf)@ == old(buf)@ + bytes@,
{
    let mut i: usize = 0;
    while i < bytes.len()
        invariant
            i <= bytes.len(),
            buf@ == old(buf)@ + bytes@.subrange(0, i as int),
        decreases bytes.len() - i,
    {
        buf.push(bytes[i]);
        i = i + 1;
    }
    assert(bytes@.subrange(0, i as int) == bytes@);
}

} // verus!
