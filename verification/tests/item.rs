use row2pgcopy::item::{to_writer, write_col_cnt, Error, Float4, Float8, PgNum, PgNumArray, Ser, Value};

#[test]
fn empty4i() {
    let pna3: PgNumArray<i16> = PgNumArray::from(vec![]);
    assert_eq!(0, pna3.0.len());
}

#[test]
fn single5i() {
    let pna3: PgNumArray<i32> = PgNumArray::from(vec![299792458]);
    assert_eq!(1, pna3.0.len());
    let raw: i32 = pna3.0[0];
    assert_eq!(299792458, raw);
}

#[test]
fn multi6f() {
    let pna3: PgNumArray<Float8> = PgNumArray::from(vec![Float8::from_bits(3.776f64.to_bits())]);
    assert_eq!(1, pna3.0.len());
    let raw: f64 = f64::from_bits(pna3.0[0].to_bits());
    assert_eq!(3.776, raw);
}

fn written(val: &Value) -> Vec<u8> {
    let mut ser = Ser::new();
    val.serialize(&mut ser).unwrap();
    ser.into_inner()
}

#[test]
fn col_cnt_is_two_bytes_big_endian() {
    let mut wtr: Vec<u8> = Vec::new();
    write_col_cnt(&mut wtr, 8);
    write_col_cnt(&mut wtr, 0x0102);
    write_col_cnt(&mut wtr, -2);
    assert_eq!(wtr, vec![0, 8, 1, 2, 0xff, 0xfe]);
}

#[test]
fn col_size_is_four_bytes_big_endian() {
    let mut ser = Ser::new();
    ser.serialize_col_size(0x01020304);
    ser.serialize_col_size(-1);
    ser.serialize_col_size(i32::MIN);
    assert_eq!(ser.into_inner(), vec![1, 2, 3, 4, 0xff, 0xff, 0xff, 0xff, 0x80, 0, 0, 0]);
}

#[test]
fn bool_is_one_byte() {
    assert_eq!(written(&Value::Bool(true)), vec![0, 0, 0, 1, 1]);
    assert_eq!(written(&Value::Bool(false)), vec![0, 0, 0, 1, 0]);
}

#[test]
fn scalar_prefix_is_the_width_and_payload_reads_back() {
    for v in [0i16, 1, -1, 42, i16::MIN, i16::MAX] {
        let b = written(&Value::I16(v));
        assert_eq!(b.len(), 6);
        assert_eq!(i32::from_be_bytes([b[0], b[1], b[2], b[3]]), 2);
        assert_eq!(i16::from_be_bytes([b[4], b[5]]), v);
    }
    for v in [0i32, 1, -1, 299792458, i32::MIN, i32::MAX] {
        let b = written(&Value::I32(v));
        assert_eq!(b.len(), 8);
        assert_eq!(i32::from_be_bytes([b[0], b[1], b[2], b[3]]), 4);
        assert_eq!(i32::from_be_bytes([b[4], b[5], b[6], b[7]]), v);
    }
    for v in [0i64, 48, -48, i64::MIN, i64::MAX] {
        let b = written(&Value::I64(v));
        assert_eq!(b.len(), 12);
        assert_eq!(i32::from_be_bytes([b[0], b[1], b[2], b[3]]), 8);
        let mut p = [0u8; 8];
        p.copy_from_slice(&b[4..]);
        assert_eq!(i64::from_be_bytes(p), v);
    }
}

#[test]
fn floats_pass_through_bit_for_bit() {
    for v in [0.0f32, -0.0, 1.01325, f32::INFINITY, f32::MIN_POSITIVE] {
        let b = written(&Value::F32(Float4::from_bits(v.to_bits())));
        assert_eq!(&b[..4], &[0, 0, 0, 4]);
        assert_eq!(&b[4..], &v.to_be_bytes());
    }
    let nan = f32::NAN;
    let b = written(&Value::F32(Float4::from_bits(nan.to_bits())));
    assert_eq!(f32::from_be_bytes([b[4], b[5], b[6], b[7]]).to_bits(), nan.to_bits());
    for v in [0.0f64, 3.776, -0.599, f64::NEG_INFINITY, f64::MAX] {
        let b = written(&Value::F64(Float8::from_bits(v.to_bits())));
        assert_eq!(&b[..4], &[0, 0, 0, 8]);
        assert_eq!(&b[4..], &v.to_be_bytes());
    }
    let mut ser = Ser::new();
    ser.serialize_f64(f64::NAN.to_bits()).unwrap();
    let b = ser.into_inner();
    let mut p = [0u8; 8];
    p.copy_from_slice(&b[4..]);
    assert!(f64::from_be_bytes(p).is_nan());
}

#[test]
fn narrow_and_unsigned_integers_are_widened() {
    assert_eq!(written(&Value::I8(-2)), vec![0, 0, 0, 2, 0xff, 0xfe]);
    assert_eq!(written(&Value::I8(5)), vec![0, 0, 0, 2, 0, 5]);
    assert_eq!(written(&Value::U8(200)), vec![0, 0, 0, 2, 0, 200]);
    assert_eq!(written(&Value::U16(0xffff)), vec![0, 0, 0, 4, 0, 0, 0xff, 0xff]);
    assert_eq!(
        written(&Value::U32(0xffff_ffff)),
        vec![0, 0, 0, 8, 0, 0, 0, 0, 0xff, 0xff, 0xff, 0xff]
    );
}

#[test]
fn integers_without_a_column_are_refused() {
    let mut ser = Ser::new();
    ser.serialize_i16(7).unwrap();
    let e = ser.serialize_i128(1).unwrap_err();
    assert!(matches!(e, Error::Message(_)));
    assert_eq!(e.to_string(), "unsupported value kind: i128");
    let e = ser.serialize_u64(1).unwrap_err();
    assert_eq!(e.to_string(), "unsupported value kind: u64");
    let e = ser.serialize_u128(1).unwrap_err();
    assert_eq!(e.to_string(), "unsupported value kind: u128");
    assert_eq!(ser.into_inner(), vec![0, 0, 0, 2, 0, 7]);
}

#[test]
fn a_field_of_128_bits_fails_and_leaves_no_bytes() {
    let mut ser = Ser::new();
    let r = Value::I128(-1).serialize(&mut ser);
    match r {
        Err(Error::Message(m)) => assert_eq!(m, "unsupported value kind: i128"),
        _ => panic!("an i128 has no column"),
    }
    assert!(ser.into_inner().is_empty());
}

#[test]
fn aggregates_are_refused() {
    let mut ser = Ser::new();
    assert_eq!(ser.serialize_seq(Some(3)).unwrap_err().to_string(), "unsupported value kind: seq");
    assert_eq!(ser.serialize_tuple(2).unwrap_err().to_string(), "unsupported value kind: tuple");
    assert_eq!(
        ser.serialize_tuple_struct("T", 2).unwrap_err().to_string(),
        "unsupported value kind: tuple struct"
    );
    assert_eq!(
        ser.serialize_tuple_variant("E", 0, "V", 2).unwrap_err().to_string(),
        "unsupported value kind: tuple variant"
    );
    assert_eq!(ser.serialize_map(None).unwrap_err().to_string(), "unsupported value kind: map");
    assert_eq!(
        ser.serialize_struct_variant("E", 0, "V", 2).unwrap_err().to_string(),
        "unsupported value kind: struct variant"
    );
    assert!(ser.serialize_struct("Row", 2).is_ok());
    assert!(ser.end().is_ok());
    assert!(ser.into_inner().is_empty());
}

#[test]
fn text_and_bytes_are_written_verbatim() {
    assert_eq!(written(&Value::Str(String::from("fuji"))), vec![0, 0, 0, 4, b'f', b'u', b'j', b'i']);
    assert_eq!(
        written(&Value::Str(String::from("é山"))),
        vec![0, 0, 0, 5, 0xc3, 0xa9, 0xe5, 0xb1, 0xb1]
    );
    assert_eq!(written(&Value::Bytes(vec![0xde, 0xad])), vec![0, 0, 0, 2, 0xde, 0xad]);
    let mut ser = Ser::new();
    ser.serialize_unit_variant("Mountain", 1, "takao").unwrap();
    assert_eq!(ser.into_inner(), vec![0, 0, 0, 5, b't', b'a', b'k', b'a', b'o']);
}

#[test]
fn a_character_is_its_utf8_bytes() {
    assert_eq!(written(&Value::Char('A')), vec![0, 0, 0, 1, 0x41]);
    assert_eq!(written(&Value::Char('é')), vec![0, 0, 0, 2, 0xc3, 0xa9]);
    assert_eq!(written(&Value::Char('山')), vec![0, 0, 0, 3, 0xe5, 0xb1, 0xb1]);
    assert_eq!(written(&Value::Char('🗻')), vec![0, 0, 0, 4, 0xf0, 0x9f, 0x97, 0xbb]);
}

#[test]
fn empty_payload_is_not_null() {
    let empty = written(&Value::Bytes(Vec::new()));
    assert_eq!(empty, vec![0, 0, 0, 0]);
    assert_eq!(written(&Value::Str(String::new())), vec![0, 0, 0, 0]);
    let null = written(&Value::Null);
    assert_eq!(null, vec![0xff, 0xff, 0xff, 0xff]);
    assert_ne!(empty, null);
    let mut ser = Ser::new();
    ser.serialize_none().unwrap();
    ser.serialize_unit().unwrap();
    ser.serialize_unit_struct("Nothing").unwrap();
    assert_eq!(ser.into_inner(), vec![0xff; 12]);
}

#[test]
fn prefix_is_the_length_of_the_payload() {
    for n in [0usize, 1, 2, 255, 256, 65_537] {
        let payload: Vec<u8> = (0..n).map(|i| (i % 251) as u8).collect();
        let b = written(&Value::Bytes(payload.clone()));
        assert_eq!(b.len(), 4 + n);
        assert_eq!(i32::from_be_bytes([b[0], b[1], b[2], b[3]]) as usize, n);
        assert_eq!(&b[4..], &payload[..]);
    }
}

#[test]
fn a_present_value_is_written_as_itself() {
    let mut ser = Ser::new();
    ser.serialize_some(&Value::I32(7)).unwrap();
    ser.serialize_newtype_struct("Meters", &Value::I16(3776)).unwrap();
    ser.serialize_newtype_variant("Height", 0, "Meters", &Value::I16(599)).unwrap();
    ser.serialize_field("id", &Value::Bool(true)).unwrap();
    ser.serialize_element(&Value::Null).unwrap();
    assert_eq!(
        ser.into_inner(),
        vec![
            0, 0, 0, 4, 0, 0, 0, 7, 0, 0, 0, 2, 0x0e, 0xc0, 0, 0, 0, 2, 0x02, 0x57, 0, 0, 0, 1, 1,
            0xff, 0xff, 0xff, 0xff
        ]
    );
}

#[test]
fn type_numbers_and_sizes() {
    assert_eq!((<i16 as PgNum>::type_num(), <i16 as PgNum>::size()), (0x15, 2));
    assert_eq!((<i32 as PgNum>::type_num(), <i32 as PgNum>::size()), (0x17, 4));
    assert_eq!((<i64 as PgNum>::type_num(), <i64 as PgNum>::size()), (0x14, 8));
    assert_eq!((Float4::type_num(), Float4::size()), (0x02bc, 4));
    assert_eq!((Float8::type_num(), Float8::size()), (0x02bd, 8));
    let mut buf: Vec<u8> = vec![9];
    0x0102i16.to_buf(&mut buf);
    (-2i32).to_buf(&mut buf);
    1i64.to_buf(&mut buf);
    Float4::from_bits(1.0f32.to_bits()).to_buf(&mut buf);
    Float8::from_bits(1.0f64.to_bits()).to_buf(&mut buf);
    assert_eq!(
        buf,
        vec![
            9, 1, 2, 0xff, 0xff, 0xff, 0xfe, 0, 0, 0, 0, 0, 0, 0, 1, 0x3f, 0x80, 0, 0, 0x3f, 0xf0,
            0, 0, 0, 0, 0, 0
        ]
    );
}

#[test]
fn empty_array_is_twelve_bytes() {
    let a: PgNumArray<i32> = PgNumArray::from(vec![]);
    let mut ser = Ser::new();
    a.serialize(&mut ser).unwrap();
    assert_eq!(ser.into_inner(), vec![0, 0, 0, 12, 0, 0, 0, 0, 0, 0, 0, 0, 0, 0, 0, 0x17]);
    let b = written(&Value::Int2Array(PgNumArray(vec![])));
    assert_eq!(b, vec![0, 0, 0, 12, 0, 0, 0, 0, 0, 0, 0, 0, 0, 0, 0, 0x15]);
    let b = written(&Value::Float8Array(PgNumArray(vec![])));
    assert_eq!(b, vec![0, 0, 0, 12, 0, 0, 0, 0, 0, 0, 0, 0, 0, 0, 0x02, 0xbd]);
}

fn be32(b: &[u8], at: usize) -> i32 {
    i32::from_be_bytes([b[at], b[at + 1], b[at + 2], b[at + 3]])
}

#[test]
fn array_reads_back() {
    let items: Vec<i16> = vec![3776, 599, -1];
    let b = written(&Value::Int2Array(PgNumArray(items.clone())));
    assert_eq!(be32(&b, 0) as usize, b.len() - 4);
    assert_eq!(b.len(), 4 + 20 + 3 * 6);
    let p = &b[4..];
    assert_eq!(be32(p, 0), 1);
    assert_eq!(be32(p, 4), 0);
    assert_eq!(be32(p, 8), 0x15);
    assert_eq!(be32(p, 12), 3);
    assert_eq!(be32(p, 16), 1);
    for (i, item) in items.iter().enumerate() {
        let at = 20 + i * 6;
        assert_eq!(be32(p, at), 2);
        assert_eq!(i16::from_be_bytes([p[at + 4], p[at + 5]]), *item);
    }
    assert_eq!(
        p,
        &[
            0, 0, 0, 1, 0, 0, 0, 0, 0, 0, 0, 0x15, 0, 0, 0, 3, 0, 0, 0, 1, 0, 0, 0, 2, 0x0e, 0xc0,
            0, 0, 0, 2, 0x02, 0x57, 0, 0, 0, 2, 0xff, 0xff
        ][..]
    );
}

#[test]
fn arrays_of_every_item_type() {
    let b = written(&Value::Int4Array(PgNumArray(vec![299792458])));
    assert_eq!(
        b,
        vec![
            0, 0, 0, 28, 0, 0, 0, 1, 0, 0, 0, 0, 0, 0, 0, 0x17, 0, 0, 0, 1, 0, 0, 0, 1, 0, 0, 0,
            4, 0x11, 0xde, 0x78, 0x4a
        ]
    );
    let items: Vec<i64> = vec![333, 634];
    let b = written(&Value::Int8Array(PgNumArray(items.clone())));
    assert_eq!(b.len(), 4 + 20 + 2 * 12);
    assert_eq!(be32(&b, 4 + 8), 0x14);
    for (i, item) in items.iter().enumerate() {
        let at = 4 + 20 + i * 12;
        assert_eq!(be32(&b, at), 8);
        let mut p = [0u8; 8];
        p.copy_from_slice(&b[at + 4..at + 12]);
        assert_eq!(i64::from_be_bytes(p), *item);
    }
    let floats: Vec<f32> = vec![1.01325, -2.5];
    let b = written(&Value::Float4Array(PgNumArray(
        floats.iter().map(|f| Float4::from_bits(f.to_bits())).collect(),
    )));
    assert_eq!(b.len(), 4 + 20 + 2 * 8);
    assert_eq!(be32(&b, 4 + 8), 0x02bc);
    for (i, item) in floats.iter().enumerate() {
        let at = 4 + 20 + i * 8;
        assert_eq!(be32(&b, at), 4);
        assert_eq!(&b[at + 4..at + 8], &item.to_be_bytes());
    }
    let doubles: Vec<f64> = vec![3.776, 0.599];
    let b = written(&Value::Float8Array(PgNumArray(
        doubles.iter().map(|f| Float8::from_bits(f.to_bits())).collect(),
    )));
    assert_eq!(be32(&b, 4 + 8), 0x02bd);
    assert_eq!(be32(&b, 4 + 12), 2);
    for (i, item) in doubles.iter().enumerate() {
        let at = 4 + 20 + i * 12;
        assert_eq!(be32(&b, at), 8);
        assert_eq!(&b[at + 4..at + 12], &item.to_be_bytes());
    }
}

#[test]
fn a_row_is_its_fields_in_order() {
    let row = vec![
        Value::I16(42),
        Value::Str(String::from("fuji")),
        Value::Null,
        Value::Bool(true),
    ];
    let mut wtr: Vec<u8> = vec![0, 4];
    to_writer(&mut wtr, &row).unwrap();
    assert_eq!(
        wtr,
        vec![
            0, 4, 0, 0, 0, 2, 0, 42, 0, 0, 0, 4, b'f', b'u', b'j', b'i', 0xff, 0xff, 0xff, 0xff, 0,
            0, 0, 1, 1
        ]
    );
    let mut wtr: Vec<u8> = Vec::new();
    to_writer(&mut wtr, &[]).unwrap();
    assert!(wtr.is_empty());
}

#[test]
fn a_row_stops_at_the_first_field_that_fails() {
    let row = vec![Value::I16(1), Value::I128(5), Value::I16(2)];
    let mut wtr: Vec<u8> = vec![0xaa];
    let e = to_writer(&mut wtr, &row).unwrap_err();
    assert_eq!(e.to_string(), "unsupported value kind: i128");
    assert_eq!(wtr, vec![0xaa, 0, 0, 0, 2, 0, 1]);
    let row = vec![Value::U64(1)];
    let mut wtr: Vec<u8> = Vec::new();
    assert!(matches!(to_writer(&mut wtr, &row), Err(Error::Message(_))));
    assert!(wtr.is_empty());
}

#[test]
fn a_failed_write_names_what_was_written() {
    let e = Error::write_failed("an integer", "broken pipe");
    match &e {
        Error::WriteError(m) => assert_eq!(m, "unable to write an integer: broken pipe"),
        Error::Message(_) => panic!("a failed write is no encoding error"),
    }
    assert_eq!(e.to_string(), "Write Error: unable to write an integer: broken pipe");
}

#[test]
fn a_payload_is_made_before_it_is_written() {
    let a: PgNumArray<i16> = PgNumArray::from(vec![1, 2]);
    let payload = a.to_payload().unwrap();
    assert_eq!(payload.len(), 20 + 2 * 6);
    let mut ser = Ser::new();
    a.serialize(&mut ser).unwrap();
    let column = ser.into_inner();
    assert_eq!(&column[..4], &(payload.len() as i32).to_be_bytes());
    assert_eq!(&column[4..], &payload[..]);
}

#[test]
fn errors_as_text() {
    assert_eq!(Error::custom("no column").to_string(), "no column");
    assert_eq!(Error::Message(String::from("m")).to_string(), "m");
    assert_eq!(
        Error::WriteError(String::from("unable to write bytes: broken pipe")).to_string(),
        "Write Error: unable to write bytes: broken pipe"
    );
}
