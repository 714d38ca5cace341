//! The column writer and the values that it takes.

use vstd::prelude::*;
use vstd::string::{StringExecFns, StringSliceAdditionalSpecFns};
use vstd::utf8::encode_utf8;
use crate::blob::PgBlob;
use crate::time::pg_micros;
use crate::time::primitive::{in_four_digit_years, Timestamp};
use crate::time::systemtime::{too_large, Timestampz};
use crate::uuid::Uuid;
use crate::wire::{
    be_bytes, be_signed, be_unsigned, column, fits_signed, fits_unsigned, lemma_be_bytes_len,
    lemma_column_frame, lemma_radix_values,
    lemma_signed_round_trip, lemma_unsigned_round_trip, max_payload, null_column, put_i16,
    put_i32, put_i64, put_slice, put_unsigned,
};

verus! {

/// Why a value could not be written.
#[derive(Debug)]
pub enum Error {
    /// The value has no representation in the format.
    Message(String),
    /// The destination refused the bytes.
    WriteError(String),
}

impl Error {
    /// The text that this error shows to a reader.
    pub open spec fn text(&self) -> Seq<char> {
        match self {
            Error::Message(msg) => msg@,
            Error::WriteError(msg) => "Write Error: "@ + msg@,
        }
    }

    /// An encoding error with the given message.
    pub fn custom(msg: &str) -> (e: Error)
        ensures
            e matches Error::Message(m) && m@ == msg@,
    {
        Error::Message(String::from_str(msg))
    }

    /// The error of a writer that failed with `cause` while `what` was
    /// written to it.
    pub fn write_failed(what: &str, cause: &str) -> (e: Error)
        ensures
            e matches Error::WriteError(m) && m@ == "unable to write "@ + what@ + ": "@ + cause@,
    {
        Error::WriteError(
            String::from_str("unable to write ").concat(what).concat(": ").concat(cause),
        )
    }

    /// The error as text: the message of an encoding error as it is, that of
    /// a write error behind the words `Write Error: `.
    pub fn to_string(&self) -> (s: String)
        ensures
            s@ == self.text(),
    {
        match self {
            Error::Message(msg) => msg.clone(),
            Error::WriteError(msg) => String::from_str("Write Error: ").concat(msg.as_str()),
        }
    }
}

/// Whether `r` is the encoding error with the message `msg`.
pub open spec fn refused<T>(r: Result<T, Error>, msg: Seq<char>) -> bool {
    r matches Err(Error::Message(m)) && m@ == msg
}

/// The message for a payload whose length no column prefix can hold.
pub open spec fn too_long() -> Seq<char> {
    "payload too long for a column"@
}

/// Writes the number of columns of a row: a signed 16-bit integer in network
/// byte order.
pub fn write_col_cnt(wtr: &mut Vec<u8>, cnt: i16)
    ensures
        final(wtr)@ == old(wtr)@ + be_bytes(cnt as int, 2),
{
    put_i16(wtr, cnt);
}

/// The byte of a boolean column.
pub open spec fn bool_byte(v: bool) -> u8 {
    if v {
        1
    } else {
        0
    }
}

/// The bytes of a column that holds the integer `v` in `width` bytes.
pub open spec fn int_column(v: int, width: nat) -> Seq<u8> {
    column(be_bytes(v, width))
}

/// The column of a signed integer of `width` bytes starts with `width` and
/// goes on with bytes that spell the integer.
pub proof fn lemma_int_column_reads_back(v: int, width: nat)
    requires
        fits_signed(v, width),
        width <= max_payload(),
    ensures
        int_column(v, width).len() == 4 + width,
        be_signed(int_column(v, width).subrange(0, 4)) == width,
        be_signed(int_column(v, width).subrange(4, 4 + width as int)) == v,
{
    lemma_be_bytes_len(v, width);
    lemma_column_frame(be_bytes(v, width));
    lemma_signed_round_trip(v, width);
}

/// The column of a bit pattern of `width` bytes starts with `width` and goes
/// on with the pattern, bit for bit.
pub proof fn lemma_bits_column_reads_back(bits: int, width: nat)
    requires
        fits_unsigned(bits, width),
        width <= max_payload(),
    ensures
        int_column(bits, width).len() == 4 + width,
        be_signed(int_column(bits, width).subrange(0, 4)) == width,
        be_unsigned(int_column(bits, width).subrange(4, 4 + width as int)) == bits,
{
    lemma_be_bytes_len(bits, width);
    lemma_column_frame(be_bytes(bits, width));
    lemma_unsigned_round_trip(bits, width);
}

/// Every integer fits the column that it is written to: the 8-bit ones and
/// the unsigned ones the wider signed column that they are promoted to, and
/// the bit patterns of the floating-point numbers a column of their width.
pub proof fn lemma_scalars_fit()
    ensures
        forall|v: i8| fits_signed(v as int, 2),
        forall|v: i16| fits_signed(v as int, 2),
        forall|v: i32| fits_signed(v as int, 4),
        forall|v: i64| fits_signed(v as int, 8),
        forall|v: u8| fits_signed(v as int, 2),
        forall|v: u16| fits_signed(v as int, 4),
        forall|v: u32| fits_signed(v as int, 8),
        forall|bits: u32| fits_unsigned(bits as int, 4),
        forall|bits: u64| fits_unsigned(bits as int, 8),
{
    lemma_radix_values();
}

/// Writes columns, one value at a time, to the end of a byte buffer.
pub struct Ser {
    pub wtr: Vec<u8>,
}

impl View for Ser {
    type V = Seq<u8>;

    open spec fn view(&self) -> Seq<u8> {
        self.wtr@
    }
}

/// The UTF-8 bytes of one character, from `char::encode_utf8` of std, which
/// encodes the character into a buffer of four bytes and hands back the part
/// that it filled.
#[verifier::external_body]
fn utf8_of_char(c: char) -> (bytes: Vec<u8>)
    ensures
        bytes@ == encode_utf8(seq![c]),
{
    let mut buf: [u8; 4] = [0; 4];
    c.encode_utf8(&mut buf).as_bytes().to_vec()
}

impl Ser {
    /// A writer with nothing written.
    pub fn new() -> (ser: Ser)
        ensures
            ser@ == Seq::<u8>::empty(),
    {
        Ser { wtr: Vec::new() }
    }

    /// The bytes written so far.
    pub fn into_inner(self) -> (wtr: Vec<u8>)
        ensures
            wtr@ == self@,
    {
        self.wtr
    }

    /// Writes the length prefix of a column.
    pub fn serialize_col_size(&mut self, sz: i32)
        ensures
            final(self)@ == old(self)@ + be_bytes(sz as int, 4),
    {
        put_i32(&mut self.wtr, sz);
    }

    /// A boolean is a column of one byte, 1 for true and 0 for false.
    pub fn serialize_bool(&mut self, v: bool) -> (r: Result<(), Error>)
        ensures
            r is Ok,
            final(self)@ == old(self)@ + column(seq![bool_byte(v)]),
    {
        let u: u8 = match v {
            true => 1,
            false => 0,
        };
        let sz: i32 = 1;
        self.serialize_col_size(sz);
        self.wtr.push(u);
        assert(self@ == old(self)@ + column(seq![bool_byte(v)]));
        Ok(())
    }

    /// The format has no 8-bit integer: the value is sign-extended to 16 bits.
    pub fn serialize_i8(&mut self, i: i8) -> (r: Result<(), Error>)
        ensures
            r is Ok,
            final(self)@ == old(self)@ + int_column(i as int, 2),
    {
        self.serialize_i16(i as i16)
    }

    /// A 16-bit integer is a column of two bytes.
    pub fn serialize_i16(&mut self, i: i16) -> (r: Result<(), Error>)
        ensures
            r is Ok,
            final(self)@ == old(self)@ + int_column(i as int, 2),
    {
        proof {
            crate::wire::lemma_be_bytes_len(i as int, 2);
        }
        self.serialize_col_size(2);
        put_i16(&mut self.wtr, i);
        assert(self@ == old(self)@ + int_column(i as int, 2));
        Ok(())
    }

    /// A 32-bit integer is a column of four bytes.
    pub fn serialize_i32(&mut self, i: i32) -> (r: Result<(), Error>)
        ensures
            r is Ok,
            final(self)@ == old(self)@ + int_column(i as int, 4),
    {
        proof {
            crate::wire::lemma_be_bytes_len(i as int, 4);
        }
        self.serialize_col_size(4);
        put_i32(&mut self.wtr, i);
        assert(self@ == old(self)@ + int_column(i as int, 4));
        Ok(())
    }

    /// A 64-bit integer is a column of eight bytes.
    pub fn serialize_i64(&mut self, i: i64) -> (r: Result<(), Error>)
        ensures
            r is Ok,
            final(self)@ == old(self)@ + int_column(i as int, 8),
    {
        proof {
            crate::wire::lemma_be_bytes_len(i as int, 8);
        }
        self.serialize_col_size(8);
        put_i64(&mut self.wtr, i);
        assert(self@ == old(self)@ + int_column(i as int, 8));
        Ok(())
    }

    /// A single-precision number, given by its IEEE-754 bit pattern, is a
    /// column of those four bytes: every pattern passes through unchanged.
    pub fn serialize_f32(&mut self, bits: u32) -> (r: Result<(), Error>)
        ensures
            r is Ok,
            final(self)@ == old(self)@ + int_column(bits as int, 4),
    {
        proof {
            crate::wire::lemma_be_bytes_len(bits as int, 4);
        }
        self.serialize_col_size(4);
        put_unsigned(&mut self.wtr, bits as u128, 4);
        assert(self@ == old(self)@ + int_column(bits as int, 4));
        Ok(())
    }

    /// A double-precision number, given by its IEEE-754 bit pattern, is a
    /// column of those eight bytes: every pattern passes through unchanged.
    pub fn serialize_f64(&mut self, bits: u64) -> (r: Result<(), Error>)
        ensures
            r is Ok,
            final(self)@ == old(self)@ + int_column(bits as int, 8),
    {
        proof {
            crate::wire::lemma_be_bytes_len(bits as int, 8);
        }
        self.serialize_col_size(8);
        put_unsigned(&mut self.wtr, bits as u128, 8);
        assert(self@ == old(self)@ + int_column(bits as int, 8));
        Ok(())
    }

    /// The format has no 128-bit integer: nothing is written.
    pub fn serialize_i128(&mut self, _i: i128) -> (r: Result<(), Error>)
        ensures
            refused(r, "unsupported value kind: i128"@),
            final(self)@ == old(self)@,
    {
        Err(Error::custom("unsupported value kind: i128"))
    }

    /// The format has no unsigned integer: the value is zero-extended and
    /// written as a signed 16-bit column.
    pub fn serialize_u8(&mut self, i: u8) -> (r: Result<(), Error>)
        ensures
            r is Ok,
            final(self)@ == old(self)@ + int_column(i as int, 2),
    {
        self.serialize_i16(i as i16)
    }

    /// The value is zero-extended and written as a signed 32-bit column.
    pub fn serialize_u16(&mut self, i: u16) -> (r: Result<(), Error>)
        ensures
            r is Ok,
            final(self)@ == old(self)@ + int_column(i as int, 4),
    {
        self.serialize_i32(i as i32)
    }

    /// The value is zero-extended and written as a signed 64-bit column.
    pub fn serialize_u32(&mut self, i: u32) -> (r: Result<(), Error>)
        ensures
            r is Ok,
            final(self)@ == old(self)@ + int_column(i as int, 8),
    {
        self.serialize_i64(i as i64)
    }

    /// No signed column is wide enough for every unsigned 64-bit integer:
    /// nothing is written.
    pub fn serialize_u64(&mut self, _i: u64) -> (r: Result<(), Error>)
        ensures
            refused(r, "unsupported value kind: u64"@),
            final(self)@ == old(self)@,
    {
        Err(Error::custom("unsupported value kind: u64"))
    }

    /// The format has no 128-bit integer: nothing is written.
    pub fn serialize_u128(&mut self, _i: u128) -> (r: Result<(), Error>)
        ensures
            refused(r, "unsupported value kind: u128"@),
            final(self)@ == old(self)@,
    {
        Err(Error::custom("unsupported value kind: u128"))
    }

    /// A character is a column of its UTF-8 bytes.
    pub fn serialize_char(&mut self, c: char) -> (r: Result<(), Error>)
        ensures
            r is Ok,
            final(self)@ == old(self)@ + column(encode_utf8(seq![c])),
    {
        let encoded: Vec<u8> = utf8_of_char(c);
        assert(encode_utf8(seq![c]).len() <= 4) by {
            assert(seq![c].drop_first().len() == 0);
            assert(encode_utf8(seq![c].drop_first()).len() == 0);
        }
        self.serialize_bytes(encoded.as_slice())
    }

    /// Text is a column of its UTF-8 bytes, as they are.
    pub fn serialize_str(&mut self, s: &str) -> (r: Result<(), Error>)
        ensures
            s.spec_bytes().len() <= max_payload() ==> r is Ok && final(self)@ == old(self)@
                + column(s.spec_bytes()),
            s.spec_bytes().len() > max_payload() ==> refused(r, too_long()) && final(self)@ == old(self)@,
    {
        self.serialize_bytes(s.as_bytes())
    }

    /// Bytes are a column of themselves: their number, then the bytes. A
    /// payload whose length no prefix can hold is refused, and nothing is
    /// written.
    pub fn serialize_bytes(&mut self, b: &[u8]) -> (r: Result<(), Error>)
        ensures
            b@.len() <= max_payload() ==> r is Ok && final(self)@ == old(self)@ + column(b@),
            b@.len() > max_payload() ==> refused(r, too_long()) && final(self)@ == old(self)@,
    {
        if b.len() > 0x7fff_ffff {
            return Err(Error::custom("payload too long for a column"));
        }
        let sz: i32 = b.len() as i32;
        self.serialize_col_size(sz);
        put_slice(&mut self.wtr, b);
        assert(self@ == old(self)@ + column(b@));
        Ok(())
    }

    /// "No value" is the null column: the length -1 and no payload.
    pub fn serialize_none(&mut self) -> (r: Result<(), Error>)
        ensures
            r is Ok,
            final(self)@ == old(self)@ + null_column(),
    {
        let sz: i32 = -1;
        self.serialize_col_size(sz);
        Ok(())
    }

    /// The unit value is written as "no value".
    pub fn serialize_unit(&mut self) -> (r: Result<(), Error>)
        ensures
            r is Ok,
            final(self)@ == old(self)@ + null_column(),
    {
        self.serialize_none()
    }

    /// A struct without fields is written as "no value".
    pub fn serialize_unit_struct(&mut self, _name: &str) -> (r: Result<(), Error>)
        ensures
            r is Ok,
            final(self)@ == old(self)@ + null_column(),
    {
        self.serialize_unit()
    }

    /// A variant without fields is written as its name.
    pub fn serialize_unit_variant(&mut self, _name: &str, _vix: u32, var: &str) -> (r: Result<
        (),
        Error,
    >)
        ensures
            var.spec_bytes().len() <= max_payload() ==> r is Ok && final(self)@ == old(self)@
                + column(var.spec_bytes()),
            var.spec_bytes().len() > max_payload() ==> refused(r, too_long()) && final(self)@ == old(self)@,
    {
        self.serialize_str(var)
    }
}

/// A number that can be an item of a one-dimensional array.
pub trait PgNum: Sized {
    /// The item on the wire: its bytes in network byte order.
    spec fn wire(&self) -> Seq<u8>;

    /// The number by which PostgreSQL knows the type of the items.
    spec fn spec_type_num() -> u32;

    /// The number of bytes of one item.
    spec fn spec_size() -> nat;

    /// The item that `bytes` spell.
    spec fn from_wire(bytes: Seq<u8>) -> Self;

    /// Every item takes the same number of bytes, and reading them gives
    /// the item back.
    proof fn lemma_wire(&self)
        ensures
            self.wire().len() == Self::spec_size(),
            Self::from_wire(self.wire()) == *self,
    ;

    /// Extends a buf by the item's bytes in network byte order.
    fn to_buf(&self, buf: &mut Vec<u8>)
        ensures
            final(buf)@ == old(buf)@ + self.wire(),
    ;

    /// A type number. i16 -> 0x15, i32 -> 0x17, float8 -> 0x02bd, ...
    fn type_num() -> (n: u32)
        ensures
            n == Self::spec_type_num(),
    ;

    /// The size of a number type. i16 -> 2, float8 -> 8, ...
    fn size() -> (n: usize)
        ensures
            n == Self::spec_size(),
    ;
}

impl PgNum for i16 {
    open spec fn wire(&self) -> Seq<u8> {
        be_bytes(*self as int, 2)
    }

    open spec fn spec_type_num() -> u32 {
        0x15
    }

    open spec fn spec_size() -> nat {
        2
    }

    open spec fn from_wire(bytes: Seq<u8>) -> i16 {
        be_signed(bytes) as i16
    }

    proof fn lemma_wire(&self) {
        lemma_radix_values();
        lemma_be_bytes_len(*self as int, 2);
        lemma_signed_round_trip(*self as int, 2);
    }

    fn to_buf(&self, buf: &mut Vec<u8>) {
        put_i16(buf, *self);
    }

    fn type_num() -> u32 {
        0x15
    }

    fn size() -> usize {
        2
    }
}

impl PgNum for i32 {
    open spec fn wire(&self) -> Seq<u8> {
        be_bytes(*self as int, 4)
    }

    open spec fn spec_type_num() -> u32 {
        0x17
    }

    open spec fn spec_size() -> nat {
        4
    }

    open spec fn from_wire(bytes: Seq<u8>) -> i32 {
        be_signed(bytes) as i32
    }

    proof fn lemma_wire(&self) {
        lemma_radix_values();
        lemma_be_bytes_len(*self as int, 4);
        lemma_signed_round_trip(*self as int, 4);
    }

    fn to_buf(&self, buf: &mut Vec<u8>) {
        put_i32(buf, *self);
    }

    fn type_num() -> u32 {
        0x17
    }

    fn size() -> usize {
        4
    }
}

impl PgNum for i64 {
    open spec fn wire(&self) -> Seq<u8> {
        be_bytes(*self as int, 8)
    }

    open spec fn spec_type_num() -> u32 {
        0x14
    }

    open spec fn spec_size() -> nat {
        8
    }

    open spec fn from_wire(bytes: Seq<u8>) -> i64 {
        be_signed(bytes) as i64
    }

    proof fn lemma_wire(&self) {
        lemma_radix_values();
        lemma_be_bytes_len(*self as int, 8);
        lemma_signed_round_trip(*self as int, 8);
    }

    fn to_buf(&self, buf: &mut Vec<u8>) {
        put_i64(buf, *self);
    }

    fn type_num() -> u32 {
        0x14
    }

    fn size() -> usize {
        8
    }
}

/// A single-precision number (`float4`), held as its IEEE-754 bit pattern.
#[derive(Debug, Clone, Copy, PartialEq, Eq, Structural)]
pub struct Float4(pub u32);

/// A double-precision number (`float8`), held as its IEEE-754 bit pattern.
#[derive(Debug, Clone, Copy, PartialEq, Eq, Structural)]
pub struct Float8(pub u64);

impl Float4 {
    /// The number with the given bit pattern.
    pub fn from_bits(bits: u32) -> (f: Float4)
        ensures
            f.0 == bits,
    {
        Float4(bits)
    }

    /// The bit pattern of the number.
    pub fn to_bits(&self) -> (bits: u32)
        ensures
            bits == self.0,
    {
        self.0
    }
}

impl Float8 {
    /// The number with the given bit pattern.
    pub fn from_bits(bits: u64) -> (f: Float8)
        ensures
            f.0 == bits,
    {
        Float8(bits)
    }

    /// The bit pattern of the number.
    pub fn to_bits(&self) -> (bits: u64)
        ensures
            bits == self.0,
    {
        self.0
    }
}

impl PgNum for Float4 {
    open spec fn wire(&self) -> Seq<u8> {
        be_bytes(self.0 as int, 4)
    }

    open spec fn spec_type_num() -> u32 {
        0x02bc
    }

    open spec fn spec_size() -> nat {
        4
    }

    open spec fn from_wire(bytes: Seq<u8>) -> Float4 {
        Float4(be_unsigned(bytes) as u32)
    }

    proof fn lemma_wire(&self) {
        lemma_radix_values();
        lemma_be_bytes_len(self.0 as int, 4);
        lemma_unsigned_round_trip(self.0 as int, 4);
    }

    fn to_buf(&self, buf: &mut Vec<u8>) {
        put_unsigned(buf, self.0 as u128, 4);
    }

    fn type_num() -> u32 {
        0x02bc
    }

    fn size() -> usize {
        4
    }
}

impl PgNum for Float8 {
    open spec fn wire(&self) -> Seq<u8> {
        be_bytes(self.0 as int, 8)
    }

    open spec fn spec_type_num() -> u32 {
        0x02bd
    }

    open spec fn spec_size() -> nat {
        8
    }

    open spec fn from_wire(bytes: Seq<u8>) -> Float8 {
        Float8(be_unsigned(bytes) as u64)
    }

    proof fn lemma_wire(&self) {
        lemma_radix_values();
        lemma_be_bytes_len(self.0 as int, 8);
        lemma_unsigned_round_trip(self.0 as int, 8);
    }

    fn to_buf(&self, buf: &mut Vec<u8>) {
        put_unsigned(buf, self.0 as u128, 8);
    }

    fn type_num() -> u32 {
        0x02bd
    }

    fn size() -> usize {
        8
    }
}

/// The items of an array on the wire: each one as a column of its own.
pub open spec fn array_items(items: Seq<Seq<u8>>) -> Seq<u8>
    decreases items.len(),
{
    if items.len() == 0 {
        Seq::empty()
    } else {
        array_items(items.drop_last()) + column(items.last())
    }
}

/// The head of an array: the number of dimensions, the has-null flag and the
/// type number of the items, and then, unless the array is empty, the length
/// and the lower bound of its one dimension.
pub open spec fn array_header(type_num: u32, len: nat) -> Seq<u8> {
    if len == 0 {
        be_bytes(0, 4) + be_bytes(0, 4) + be_bytes(type_num as int, 4)
    } else {
        be_bytes(1, 4) + be_bytes(0, 4) + be_bytes(type_num as int, 4) + be_bytes(len as int, 4)
            + be_bytes(1, 4)
    }
}

/// A one-dimensional array on the wire: its head, then its items.
pub open spec fn array_payload(type_num: u32, items: Seq<Seq<u8>>) -> Seq<u8> {
    array_header(type_num, items.len()) + array_items(items)
}

/// The length of an array's payload whose items take `width` bytes each.
pub open spec fn array_payload_len(len: nat, width: nat) -> nat {
    if len == 0 {
        12
    } else {
        20 + len * (4 + width)
    }
}

/// Where the column of item `i` starts in the payload of a non-empty array
/// whose items take `width` bytes each.
pub open spec fn array_item_at(i: int, width: nat) -> int {
    20 + i * (4 + width)
}

/// Whether every item takes `width` bytes.
pub open spec fn uniform(items: Seq<Seq<u8>>, width: nat) -> bool {
    forall|i: int| 0 <= i < items.len() ==> (#[trigger] items[i]).len() == width
}

/// The items of an array of `n` items of `width` bytes take `n * (4 + width)`
/// bytes.
pub proof fn lemma_array_items_len(items: Seq<Seq<u8>>, width: nat)
    requires
        uniform(items, width),
    ensures
        array_items(items).len() == items.len() * (4 + width),
    decreases items.len(),
{
    if items.len() > 0 {
        let head = items.drop_last();
        assert(uniform(head, width)) by {
            assert forall|i: int| 0 <= i < head.len() implies (#[trigger] head[i]).len()
                == width by {
                assert(head[i] == items[i]);
            }
        }
        lemma_array_items_len(head, width);
        lemma_be_bytes_len(items.last().len() as int, 4);
        assert(items.last() == items[items.len() - 1]);
        assert(items.len() * (4 + width) == head.len() * (4 + width) + (4 + width))
            by (nonlinear_arith)
            requires
                items.len() == head.len() + 1,
        ;
    }
}

/// The length of an array's payload: 12 bytes for the empty array, which has
/// no dimension, and 20 bytes and the items for any other.
pub proof fn lemma_array_payload_len(type_num: u32, items: Seq<Seq<u8>>, width: nat)
    requires
        uniform(items, width),
    ensures
        array_payload(type_num, items).len() == array_payload_len(items.len(), width),
        items.len() == 0 ==> array_payload(type_num, items) == be_bytes(0, 4) + be_bytes(0, 4)
            + be_bytes(type_num as int, 4),
{
    lemma_array_items_len(items, width);
    lemma_be_bytes_len(0, 4);
    lemma_be_bytes_len(1, 4);
    lemma_be_bytes_len(type_num as int, 4);
    lemma_be_bytes_len(items.len() as int, 4);
    if items.len() == 0 {
        assert(array_payload(type_num, items) == be_bytes(0, 4) + be_bytes(0, 4) + be_bytes(
            type_num as int,
            4,
        ));
    }
}

/// The column of item `i` stands at `i * (4 + width)` among the items.
pub proof fn lemma_array_items_slot(items: Seq<Seq<u8>>, width: nat, i: int)
    requires
        uniform(items, width),
        0 <= i < items.len(),
    ensures
        (i + 1) * (4 + width) <= array_items(items).len(),
        array_items(items).subrange(i * (4 + width), (i + 1) * (4 + width)) == column(items[i]),
    decreases items.len(),
{
    let stride = 4 + width;
    let head = items.drop_last();
    assert(uniform(head, width)) by {
        assert forall|k: int| 0 <= k < head.len() implies (#[trigger] head[k]).len() == width by {
            assert(head[k] == items[k]);
        }
    }
    lemma_array_items_len(items, width);
    lemma_array_items_len(head, width);
    lemma_be_bytes_len(items.last().len() as int, 4);
    assert(items.last() == items[items.len() - 1]);
    assert((i + 1) * stride == i * stride + stride) by (nonlinear_arith);
    assert(items.len() * stride == head.len() * stride + stride) by (nonlinear_arith)
        requires
            items.len() == head.len() + 1,
    ;
    if i < head.len() {
        lemma_array_items_slot(head, width, i);
        assert(head[i] == items[i]);
        assert(array_items(items).subrange(i * stride, (i + 1) * stride) == array_items(
            head,
        ).subrange(i * stride, (i + 1) * stride));
    } else {
        assert(i * stride == head.len() * stride);
        assert(array_items(items).subrange(i * stride, (i + 1) * stride) == column(
            items.last(),
        ));
    }
}

/// Whether the payload `p` holds `item` in place `i`: behind the length
/// `width`, at the place of the item's column.
pub open spec fn item_reads_as(p: Seq<u8>, i: int, width: nat, item: Seq<u8>) -> bool {
    let at = array_item_at(i, width);
    &&& 20 <= at
    &&& at + 4 + width <= p.len()
    &&& be_signed(p.subrange(at, at + 4)) == width
    &&& p.subrange(at + 4, at + 4 + width) == item
}

/// What a reader finds in the payload of a non-empty array: one dimension,
/// no nulls, the type number, the number of items, the lower bound 1, and
/// then every item, as it was given, behind its own length.
pub proof fn lemma_array_reads_back(type_num: u32, items: Seq<Seq<u8>>, width: nat)
    requires
        0 < items.len() <= max_payload(),
        width <= max_payload(),
        uniform(items, width),
    ensures
        ({
            let p = array_payload(type_num, items);
            &&& p.len() == 20 + items.len() * (4 + width)
            &&& be_signed(p.subrange(0, 4)) == 1
            &&& be_signed(p.subrange(4, 8)) == 0
            &&& be_unsigned(p.subrange(8, 12)) == type_num
            &&& be_signed(p.subrange(12, 16)) == items.len()
            &&& be_signed(p.subrange(16, 20)) == 1
            &&& forall|i: int|
                0 <= i < items.len() ==> #[trigger] item_reads_as(p, i, width, items[i])
        }),
{
    let p = array_payload(type_num, items);
    let n = items.len() as int;
    lemma_array_payload_len(type_num, items, width);
    lemma_radix_values();
    lemma_be_bytes_len(0, 4);
    lemma_be_bytes_len(1, 4);
    lemma_be_bytes_len(type_num as int, 4);
    lemma_be_bytes_len(n, 4);
    lemma_signed_round_trip(1, 4);
    lemma_signed_round_trip(0, 4);
    lemma_unsigned_round_trip(type_num as int, 4);
    lemma_signed_round_trip(n, 4);
    assert(p.subrange(0, 4) == be_bytes(1, 4));
    assert(p.subrange(4, 8) == be_bytes(0, 4));
    assert(p.subrange(8, 12) == be_bytes(type_num as int, 4));
    assert(p.subrange(12, 16) == be_bytes(n, 4));
    assert(p.subrange(16, 20) == be_bytes(1, 4));
    assert forall|i: int| 0 <= i < items.len() implies #[trigger] item_reads_as(
        p,
        i,
        width,
        items[i],
    ) by {
        let at = array_item_at(i, width);
        let stride = 4 + width;
        lemma_array_items_slot(items, width, i);
        assert((i + 1) * stride == i * stride + stride) by (nonlinear_arith);
        assert(0 <= i * stride) by (nonlinear_arith)
            requires
                0 <= i,
                0 <= stride,
        ;
        let slot = array_items(items).subrange(i * stride, (i + 1) * stride);
        assert(p.subrange(at, at + stride) == slot);
        lemma_column_frame(items[i]);
        assert(p.subrange(at, at + 4) == slot.subrange(0, 4));
        assert(p.subrange(at + 4, at + 4 + width) == slot.subrange(4, 4 + width as int));
    }
}

/// An array of postgresql numbers
#[derive(Debug, Clone)]
pub struct PgNumArray<T>(pub Vec<T>) where T: PgNum;

impl<T> From<Vec<T>> for PgNumArray<T> where T: PgNum {
    fn from(vt: Vec<T>) -> (r: Self) {
        PgNumArray(vt)
    }
}

impl<T> vstd::std_specs::convert::FromSpecImpl<Vec<T>> for PgNumArray<T> where T: PgNum {
    open spec fn obeys_from_spec() -> bool {
        true
    }

    open spec fn from_spec(vt: Vec<T>) -> Self {
        PgNumArray(vt)
    }
}

impl<T> PgNumArray<T> where T: PgNum {
    /// The items on the wire, in the order of the array.
    pub open spec fn items(&self) -> Seq<Seq<u8>> {
        Seq::new(self.0@.len(), |i: int| self.0@[i].wire())
    }

    /// The array on the wire.
    pub open spec fn payload(&self) -> Seq<u8> {
        array_payload(T::spec_type_num(), self.items())
    }

    /// Every item of the array takes the size of its type.
    pub proof fn lemma_items_uniform(&self)
        ensures
            uniform(self.items(), T::spec_size()),
            self.payload().len() == array_payload_len(self.0@.len(), T::spec_size()),
    {
        assert forall|i: int| 0 <= i < self.items().len() implies (#[trigger] self.items()[i]).len()
            == T::spec_size() by {
            self.0@[i].lemma_wire();
        }
        lemma_array_payload_len(T::spec_type_num(), self.items(), T::spec_size());
    }

    /// The empty array is 12 bytes: no dimension, no nulls, the type number.
    pub proof fn lemma_empty(&self)
        requires
            self.0@.len() == 0,
        ensures
            self.payload().len() == 12,
            self.payload() == be_bytes(0, 4) + be_bytes(0, 4) + be_bytes(
                T::spec_type_num() as int,
                4,
            ),
    {
        self.lemma_items_uniform();
        lemma_array_payload_len(T::spec_type_num(), self.items(), T::spec_size());
    }

    /// A reader of a non-empty array's payload finds one dimension, the
    /// number of items, the lower bound 1, and each item equal to the one
    /// that was given.
    pub proof fn lemma_reads_back(&self)
        requires
            self.0@.len() > 0,
            self.payload().len() <= max_payload(),
        ensures
            ({
                let p = self.payload();
                let width = T::spec_size();
                &&& be_signed(p.subrange(0, 4)) == 1
                &&& be_signed(p.subrange(4, 8)) == 0
                &&& be_unsigned(p.subrange(8, 12)) == T::spec_type_num()
                &&& be_signed(p.subrange(12, 16)) == self.0@.len()
                &&& be_signed(p.subrange(16, 20)) == 1
                &&& forall|i: int|
                    0 <= i < self.0@.len() ==> #[trigger] item_reads_as(
                        p,
                        i,
                        width,
                        self.0@[i].wire(),
                    ) && T::from_wire(
                        p.subrange(array_item_at(i, width) + 4, array_item_at(i, width) + 4 + width),
                    ) == self.0@[i]
            }),
    {
        let n = self.0@.len();
        let width = T::spec_size();
        self.lemma_items_uniform();
        assert(n * (4 + width) >= n && n * (4 + width) >= width) by (nonlinear_arith)
            requires
                n > 0,
        ;
        lemma_array_reads_back(T::spec_type_num(), self.items(), width);
        let p = self.payload();
        assert forall|i: int| 0 <= i < self.0@.len() implies #[trigger] item_reads_as(
            p,
            i,
            width,
            self.0@[i].wire(),
        ) && T::from_wire(
            p.subrange(array_item_at(i, width) + 4, array_item_at(i, width) + 4 + width),
        ) == self.0@[i] by {
            assert(self.items()[i] == self.0@[i].wire());
            assert(item_reads_as(p, i, width, self.items()[i]));
            self.0@[i].lemma_wire();
        }
    }

    /// The array on the wire: the head for an empty or a non-empty array,
    /// then each item behind its length. An array too long for a column is
    /// refused before a byte of it is made.
    pub fn to_payload(&self) -> (r: Result<Vec<u8>, Error>)
        ensures
            self.payload().len() <= max_payload() ==> (r matches Ok(buf) && buf@ == self.payload()),
            self.payload().len() > max_payload() ==> refused(r, too_long()),
    {
        let esz: usize = T::size();
        let ecnt: usize = self.0.len();
        let typ_num: u32 = T::type_num();
        proof {
            self.lemma_items_uniform();
        }
        if 0 == ecnt {
            let mut buf: Vec<u8> = Vec::with_capacity(12);
            put_i32(&mut buf, 0);
            put_i32(&mut buf, 0);
            put_unsigned(&mut buf, typ_num as u128, 4);
            assert(self.items() == Seq::<Seq<u8>>::empty());
            assert(buf@ == self.payload());
            return Ok(buf);
        }
        if ecnt > 0x7fff_ffff || esz > 0x7fff_ffff {
            assert(ecnt * (4 + esz) >= ecnt && ecnt * (4 + esz) >= esz) by (nonlinear_arith)
                requires
                    ecnt > 0,
            ;
            return Err(Error::custom("payload too long for a column"));
        }
        assert((4 + esz) * ecnt <= 0x8000_0003 * 0x7fff_ffff && (4 + esz) * ecnt == ecnt * (4
            + esz)) by (nonlinear_arith)
            requires
                0 < ecnt <= 0x7fff_ffff,
                esz <= 0x7fff_ffff,
        ;
        let sz: u64 = 4 * 5 + (4 + esz as u64) * (ecnt as u64);
        if sz > 0x7fff_ffff {
            return Err(Error::custom("payload too long for a column"));
        }
        let mut buf: Vec<u8> = Vec::with_capacity(sz as usize);
        put_i32(&mut buf, 1);
        put_i32(&mut buf, 0);
        put_unsigned(&mut buf, typ_num as u128, 4);
        put_i32(&mut buf, ecnt as i32);
        put_i32(&mut buf, 1);
        assert(buf@ == array_header(T::spec_type_num(), ecnt as nat));
        let isz: i32 = esz as i32;
        let mut i: usize = 0;
        assert(self.items().take(0) == Seq::<Seq<u8>>::empty());
        while i < ecnt
            invariant
                i <= ecnt,
                ecnt == self.0@.len(),
                isz == T::spec_size(),
                buf@ == array_header(T::spec_type_num(), ecnt as nat) + array_items(
                    self.items().take(i as int),
                ),
            decreases ecnt - i,
        {
            let ghost before = buf@;
            put_i32(&mut buf, isz);
            self.0[i].to_buf(&mut buf);
            proof {
                let item = self.0@[i as int];
                item.lemma_wire();
                let grown = self.items().take(i + 1);
                assert(grown.drop_last() == self.items().take(i as int));
                assert(grown.last() == item.wire());
                assert(buf@ == before + column(item.wire()));
            }
            i = i + 1;
        }
        assert(self.items().take(ecnt as int) == self.items());
        Ok(buf)
    }

    /// Writes the array as one column: the payload is put together first, so
    /// that its length is known before the prefix is written. An array
    /// too long for a column is refused, and nothing is written.
    pub fn serialize(&self, ser: &mut Ser) -> (r: Result<(), Error>)
        ensures
            self.payload().len() <= max_payload() ==> r is Ok && final(ser)@ == old(ser)@
                + column(self.payload()),
            self.payload().len() > max_payload() ==> refused(r, too_long()) && final(ser)@
                == old(ser)@,
    {
        match self.to_payload() {
            Ok(buf) => ser.serialize_bytes(buf.as_slice()),
            Err(e) => Err(e),
        }
    }
}

/// The column of a payload; none for a payload whose length no prefix can
/// hold.
pub open spec fn framed(payload: Seq<u8>) -> Option<Seq<u8>> {
    if payload.len() <= max_payload() {
        Some(column(payload))
    } else {
        None
    }
}

/// A value of one of the kinds that a field of a row can have.
pub enum Value {
    Bool(bool),
    I8(i8),
    I16(i16),
    I32(i32),
    I64(i64),
    I128(i128),
    U8(u8),
    U16(u16),
    U32(u32),
    U64(u64),
    U128(u128),
    F32(Float4),
    F64(Float8),
    Char(char),
    Str(String),
    Bytes(Vec<u8>),
    /// The explicit "no value".
    Null,
    Int2Array(PgNumArray<i16>),
    Int4Array(PgNumArray<i32>),
    Int8Array(PgNumArray<i64>),
    Float4Array(PgNumArray<Float4>),
    Float8Array(PgNumArray<Float8>),
    Uuid(Uuid),
    Blob(PgBlob),
    Timestamp(Timestamp),
    Timestampz(Timestampz),
}

impl Value {
    /// The payload of the value; none for "no value", for a kind that the
    /// format has no place for, and for a time point out of its range.
    pub open spec fn payload(&self) -> Option<Seq<u8>> {
        match self {
            Value::Bool(v) => Some(seq![bool_byte(*v)]),
            Value::I8(i) => Some(be_bytes(*i as int, 2)),
            Value::I16(i) => Some(be_bytes(*i as int, 2)),
            Value::I32(i) => Some(be_bytes(*i as int, 4)),
            Value::I64(i) => Some(be_bytes(*i as int, 8)),
            Value::I128(_) => None,
            Value::U8(i) => Some(be_bytes(*i as int, 2)),
            Value::U16(i) => Some(be_bytes(*i as int, 4)),
            Value::U32(i) => Some(be_bytes(*i as int, 8)),
            Value::U64(_) => None,
            Value::U128(_) => None,
            Value::F32(f) => Some(be_bytes(f.0 as int, 4)),
            Value::F64(f) => Some(be_bytes(f.0 as int, 8)),
            Value::Char(c) => Some(encode_utf8(seq![*c])),
            Value::Str(s) => Some(encode_utf8(s@)),
            Value::Bytes(b) => Some(b@),
            Value::Null => None,
            Value::Int2Array(a) => Some(a.payload()),
            Value::Int4Array(a) => Some(a.payload()),
            Value::Int8Array(a) => Some(a.payload()),
            Value::Float4Array(a) => Some(a.payload()),
            Value::Float8Array(a) => Some(a.payload()),
            Value::Uuid(u) => Some(u.payload()),
            Value::Blob(b) => Some(b@),
            Value::Timestamp(t) => if fits_signed(pg_micros(t.y2k_nanos()), 8) {
                Some(t.payload())
            } else {
                None
            },
            Value::Timestampz(t) => if t.representable() {
                Some(t.payload())
            } else {
                None
            },
        }
    }

    /// The column that stands for the value: the null column for "no value",
    /// and the column of its payload for any other; none where the value has
    /// no payload or one too long for a column.
    pub open spec fn column(&self) -> Option<Seq<u8>> {
        if self is Null {
            Some(null_column())
        } else {
            match self.payload() {
                Some(payload) => framed(payload),
                None => None,
            }
        }
    }

    /// Whether the library alone decides if the value is written. It does
    /// not for a time point: the calendar of the time crate decides on a
    /// date outside the years -9999 to 9999, and the clock of the machine on
    /// a `Timestampz`.
    pub open spec fn decided_here(&self) -> bool {
        match self {
            Value::Timestamp(t) => in_four_digit_years(t.parts().0),
            Value::Timestampz(_) => false,
            _ => true,
        }
    }

    /// The message with which a value without a column is refused.
    pub open spec fn refusal(&self) -> Seq<char> {
        match self {
            Value::I128(_) => "unsupported value kind: i128"@,
            Value::U64(_) => "unsupported value kind: u64"@,
            Value::U128(_) => "unsupported value kind: u128"@,
            Value::Timestampz(_) => too_large(),
            _ => too_long(),
        }
    }

    /// What writing the value gives: the result `r`, and `after` in a writer
    /// that held `before`. A value with a column is written as that column;
    /// any other is refused. Nothing is written of a value that fails.
    pub open spec fn written(&self, before: Seq<u8>, r: Result<(), Error>, after: Seq<u8>) -> bool {
        &&& r is Ok ==> self.column() is Some && after == before + self.column()->0
        &&& r is Err ==> r->Err_0 is Message && after == before
        &&& self.column() is Some && self.decided_here() ==> r is Ok
        &&& self.column() is None ==> r is Err
        &&& self.column() is None && !(self is Timestamp) ==> refused(r, self.refusal())
    }

    /// The column of a value is the null column or the column of a payload:
    /// its prefix is -1 with nothing behind it, or the length of what is
    /// behind it.
    pub proof fn lemma_column_is_framed(&self)
        requires
            self.column() is Some,
        ensures
            self.column()->0 == null_column() || exists|payload: Seq<u8>|
                payload.len() <= max_payload() && self.column()->0 == #[trigger] column(payload),
    {
        if !(self is Null) {
            assert(self.column()->0 == column(self.payload()->0));
        }
    }

    /// The payload of a scalar takes the bytes of its column type, that of
    /// a character at most four, that of an identifier 16 and that of a time
    /// point eight.
    pub proof fn lemma_payload_len(&self)
        ensures
            self is Bool ==> self.payload()->0.len() == 1,
            self is I8 || self is I16 || self is U8 ==> self.payload()->0.len() == 2,
            self is I32 || self is U16 || self is F32 ==> self.payload()->0.len() == 4,
            self is I64 || self is U32 || self is F64 ==> self.payload()->0.len() == 8,
            self is Char ==> 1 <= self.payload()->0.len() <= 4,
            self is Uuid ==> self.payload()->0.len() == 16,
            (self is Timestamp || self is Timestampz) && self.payload() is Some
                ==> self.payload()->0.len() == 8,
    {
        match self {
            Value::I8(i) => lemma_be_bytes_len(*i as int, 2),
            Value::I16(i) => lemma_be_bytes_len(*i as int, 2),
            Value::I32(i) => lemma_be_bytes_len(*i as int, 4),
            Value::I64(i) => lemma_be_bytes_len(*i as int, 8),
            Value::U8(i) => lemma_be_bytes_len(*i as int, 2),
            Value::U16(i) => lemma_be_bytes_len(*i as int, 4),
            Value::U32(i) => lemma_be_bytes_len(*i as int, 8),
            Value::F32(f) => lemma_be_bytes_len(f.0 as int, 4),
            Value::F64(f) => lemma_be_bytes_len(f.0 as int, 8),
            Value::Char(c) => {
                assert(seq![*c].drop_first().len() == 0);
                assert(encode_utf8(seq![*c].drop_first()).len() == 0);
            },
            Value::Uuid(u) => u.lemma_reads_back(),
            Value::Timestamp(t) => lemma_be_bytes_len(pg_micros(t.y2k_nanos()), 8),
            Value::Timestampz(t) => lemma_be_bytes_len(pg_micros(t.y2k_nanos()), 8),
            _ => {},
        }
    }

    /// Writes the value as one column.
    pub fn serialize(&self, ser: &mut Ser) -> (r: Result<(), Error>)
        ensures
            self.written(old(ser)@, r, final(ser)@),
    {
        proof {
            self.lemma_payload_len();
        }
        match self {
            Value::Bool(v) => ser.serialize_bool(*v),
            Value::I8(i) => ser.serialize_i8(*i),
            Value::I16(i) => ser.serialize_i16(*i),
            Value::I32(i) => ser.serialize_i32(*i),
            Value::I64(i) => ser.serialize_i64(*i),
            Value::I128(i) => ser.serialize_i128(*i),
            Value::U8(i) => ser.serialize_u8(*i),
            Value::U16(i) => ser.serialize_u16(*i),
            Value::U32(i) => ser.serialize_u32(*i),
            Value::U64(i) => ser.serialize_u64(*i),
            Value::U128(i) => ser.serialize_u128(*i),
            Value::F32(f) => ser.serialize_f32(f.to_bits()),
            Value::F64(f) => ser.serialize_f64(f.to_bits()),
            Value::Char(c) => ser.serialize_char(*c),
            Value::Str(s) => ser.serialize_str(s.as_str()),
            Value::Bytes(b) => ser.serialize_bytes(b.as_slice()),
            Value::Null => ser.serialize_none(),
            Value::Int2Array(a) => a.serialize(ser),
            Value::Int4Array(a) => a.serialize(ser),
            Value::Int8Array(a) => a.serialize(ser),
            Value::Float4Array(a) => a.serialize(ser),
            Value::Float8Array(a) => a.serialize(ser),
            Value::Uuid(u) => u.serialize(ser),
            Value::Blob(b) => b.serialize(ser),
            Value::Timestamp(t) => t.serialize(ser),
            Value::Timestampz(t) => t.serialize(ser),
        }
    }
}

/// The column of a field, or nothing for a field without one.
pub open spec fn field_column(field: Value) -> Seq<u8> {
    match field.column() {
        Some(c) => c,
        None => Seq::empty(),
    }
}

/// The columns of the fields of a record, in the order of the fields.
pub open spec fn row_columns(fields: Seq<Value>) -> Seq<u8>
    decreases fields.len(),
{
    if fields.len() == 0 {
        Seq::empty()
    } else {
        row_columns(fields.drop_last()) + field_column(fields.last())
    }
}

/// Whether every field has a column.
pub open spec fn all_have_columns(fields: Seq<Value>) -> bool {
    forall|i: int| 0 <= i < fields.len() ==> (#[trigger] fields[i]).column() is Some
}

/// Whether the library alone decides of every field if it is written.
pub open spec fn all_decided_here(fields: Seq<Value>) -> bool {
    forall|i: int| 0 <= i < fields.len() ==> (#[trigger] fields[i]).decided_here()
}

/// Whether writing a record stopped at field `k` with the result `r`: the
/// fields before it have a column, and field `k` has none, with `r` its
/// refusal, or was refused from outside.
pub open spec fn stops_at(fields: Seq<Value>, k: int, r: Result<(), Error>) -> bool {
    &&& 0 <= k < fields.len()
    &&& all_have_columns(fields.take(k))
    &&& !(fields[k].column() is Some && fields[k].decided_here())
    &&& fields[k].column() is None && !(fields[k] is Timestamp) ==> refused(
        r,
        fields[k].refusal(),
    )
}

/// Writes a val to a wtr: one column for each field of the record, in the
/// order of the fields, and no count of columns before them. The first field
/// that fails ends the call: the columns of the fields before it stay
/// written, and nothing of the field itself is.
pub fn to_writer(wtr: &mut Vec<u8>, val: &[Value]) -> (r: Result<(), Error>)
    ensures
        r is Ok ==> all_have_columns(val@) && final(wtr)@ == old(wtr)@ + row_columns(val@),
        r is Err ==> r->Err_0 is Message && exists|k: int| #[trigger]
            stops_at(val@, k, r) && final(wtr)@ == old(wtr)@ + row_columns(val@.take(k)),
        all_have_columns(val@) && all_decided_here(val@) ==> r is Ok,
        !all_have_columns(val@) ==> r is Err,
{
    let mut ser = Ser::new();
    let mut i: usize = 0;
    assert(val@.take(0) == Seq::<Value>::empty());
    while i < val.len()
        invariant
            i <= val.len(),
            all_have_columns(val@.take(i as int)),
            ser@ == row_columns(val@.take(i as int)),
            wtr@ == old(wtr)@,
        decreases val.len() - i,
    {
        let r = val[i].serialize(&mut ser);
        proof {
            let grown = val@.take(i + 1);
            assert(grown.drop_last() == val@.take(i as int));
            assert(grown.last() == val@[i as int]);
        }
        match r {
            Ok(_) => {
                proof {
                    let grown = val@.take(i + 1);
                    assert forall|j: int| 0 <= j < grown.len() implies (#[trigger] grown[j]).column()
                        is Some by {
                        if j < i {
                            assert(val@.take(i as int)[j] == grown[j]);
                        }
                    }
                }
            },
            Err(e) => {
                wtr.append(&mut ser.wtr);
                proof {
                    assert(stops_at(val@, i as int, r));
                    if all_have_columns(val@) && all_decided_here(val@) {
                        assert(val@[i as int].column() is Some);
                        assert(val@[i as int].decided_here());
                    }
                }
                return Err(e);
            },
        }
        i = i + 1;
    }
    assert(val@.take(i as int) == val@);
    wtr.append(&mut ser.wtr);
    Ok(())
}

impl Ser {
    /// A present value is written as the value itself.
    pub fn serialize_some(&mut self, t: &Value) -> (r: Result<(), Error>)
        ensures
            t.written(old(self)@, r, final(self)@),
    {
        t.serialize(self)
    }

    /// A struct of one field is written as the field.
    pub fn serialize_newtype_struct(&mut self, _name: &str, val: &Value) -> (r: Result<(), Error>)
        ensures
            val.written(old(self)@, r, final(self)@),
    {
        val.serialize(self)
    }

    /// A variant of one field is written as the field.
    pub fn serialize_newtype_variant(
        &mut self,
        _name: &str,
        _vix: u32,
        _var: &str,
        val: &Value,
    ) -> (r: Result<(), Error>)
        ensures
            val.written(old(self)@, r, final(self)@),
    {
        val.serialize(self)
    }

    /// the use of native Vec is unsupported.
    pub fn serialize_seq(&mut self, _len: Option<usize>) -> (r: Result<(), Error>)
        ensures
            refused(r, "unsupported value kind: seq"@),
            final(self)@ == old(self)@,
    {
        Err(Error::custom("unsupported value kind: seq"))
    }

    /// the use of native Tuple is unsupported.
    pub fn serialize_tuple(&mut self, _len: usize) -> (r: Result<(), Error>)
        ensures
            refused(r, "unsupported value kind: tuple"@),
            final(self)@ == old(self)@,
    {
        Err(Error::custom("unsupported value kind: tuple"))
    }

    /// the use of native Tuple is unsupported.
    pub fn serialize_tuple_struct(&mut self, _name: &str, _len: usize) -> (r: Result<(), Error>)
        ensures
            refused(r, "unsupported value kind: tuple struct"@),
            final(self)@ == old(self)@,
    {
        Err(Error::custom("unsupported value kind: tuple struct"))
    }

    /// the use of native Tuple is unsupported.
    pub fn serialize_tuple_variant(
        &mut self,
        _name: &str,
        _vix: u32,
        _var: &str,
        _len: usize,
    ) -> (r: Result<(), Error>)
        ensures
            refused(r, "unsupported value kind: tuple variant"@),
            final(self)@ == old(self)@,
    {
        Err(Error::custom("unsupported value kind: tuple variant"))
    }

    /// map is unsupported
    pub fn serialize_map(&mut self, _len: Option<usize>) -> (r: Result<(), Error>)
        ensures
            refused(r, "unsupported value kind: map"@),
            final(self)@ == old(self)@,
    {
        Err(Error::custom("unsupported value kind: map"))
    }

    /// A record starts with nothing written: its columns are its fields.
    pub fn serialize_struct(&mut self, _name: &str, _len: usize) -> (r: Result<(), Error>)
        ensures
            r is Ok,
            final(self)@ == old(self)@,
    {
        Ok(())
    }

    /// A variant with named fields is unsupported.
    pub fn serialize_struct_variant(
        &mut self,
        _name: &str,
        _vix: u32,
        _var: &str,
        _len: usize,
    ) -> (r: Result<(), Error>)
        ensures
            refused(r, "unsupported value kind: struct variant"@),
            final(self)@ == old(self)@,
    {
        Err(Error::custom("unsupported value kind: struct variant"))
    }

    /// A field of a record is written as its value: the name is not.
    pub fn serialize_field(&mut self, _key: &str, val: &Value) -> (r: Result<(), Error>)
        ensures
            val.written(old(self)@, r, final(self)@),
    {
        val.serialize(self)
    }

    /// An element is written as its value.
    pub fn serialize_element(&mut self, val: &Value) -> (r: Result<(), Error>)
        ensures
            val.written(old(self)@, r, final(self)@),
    {
        val.serialize(self)
    }

    /// A record ends with nothing written.
    pub fn end(&mut self) -> (r: Result<(), Error>)
        ensures
            r is Ok,
            final(self)@ == old(self)@,
    {
        Ok(())
    }
}

} // verus!
