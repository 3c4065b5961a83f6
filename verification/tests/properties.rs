use scroll_derive::failure::Failure;
use scroll_derive::generate::{
    derive_ioread, derive_iowrite, derive_pread, derive_pwrite, derive_sizewith,
};
use scroll_derive::schema::{ArrayLength, Body, FieldDecl, RecordDecl};
use scroll_derive::value::{FieldValue, Record};
use scroll_derive::word::Endian;

fn scalar(name: &str, ty: &str) -> FieldDecl {
    FieldDecl { name: name.to_string(), ty: ty.to_string(), array_length: None }
}

fn array(name: &str, ty: &str, len: u64) -> FieldDecl {
    FieldDecl {
        name: name.to_string(),
        ty: ty.to_string(),
        array_length: Some(ArrayLength::Literal(len)),
    }
}

fn record(name: &str, fields: Vec<FieldDecl>) -> RecordDecl {
    RecordDecl { name: name.to_string(), body: Body::Struct(fields) }
}

fn id_and_timestamp() -> RecordDecl {
    record("Data", vec![scalar("id", "u32"), scalar("timestamp", "f64")])
}

fn mixed() -> RecordDecl {
    record(
        "Mixed",
        vec![
            scalar("tag", "u8"),
            array("samples", "i16", 3),
            scalar("stamp", "u64"),
            array("pad", "u8", 0),
            scalar("ratio", "f32"),
        ],
    )
}

fn mixed_value() -> Record {
    Record {
        fields: vec![
            FieldValue::Scalar(0x7f),
            FieldValue::Array(vec![0x0102, 0xfffe, 0x8000]),
            FieldValue::Scalar(0x0102_0304_0506_0708),
            FieldValue::Array(vec![]),
            FieldValue::Scalar(1.5f32.to_bits() as u64),
        ],
    }
}

#[test]
fn round_trip_little_endian() {
    let decl = mixed();
    let size = derive_sizewith(&decl).unwrap().fixed_size(Endian::Little);
    assert_eq!(size, 1 + 3 * 2 + 8 + 0 + 4);
    let mut buffer = vec![0u8; size];
    let encoder = derive_pwrite(&decl).unwrap();
    assert!(encoder.accepts(&mixed_value()));
    let written = encoder.try_encode(mixed_value(), &mut buffer, 0, Endian::Little).unwrap();
    assert_eq!(written, size);
    let decoder = derive_pread(&decl).unwrap();
    let (value, consumed) = decoder.try_decode(&buffer, 0, Endian::Little).unwrap();
    assert_eq!(value, mixed_value());
    assert_eq!(consumed, size);
}

#[test]
fn round_trip_big_endian_at_an_offset() {
    let decl = mixed();
    let size = derive_sizewith(&decl).unwrap().fixed_size(Endian::Big);
    let mut buffer = vec![0xaau8; size + 7];
    let encoder = derive_pwrite(&decl).unwrap();
    let written = encoder.try_encode(mixed_value(), &mut buffer, 5, Endian::Big).unwrap();
    assert_eq!(written, size);
    let decoder = derive_pread(&decl).unwrap();
    let (value, consumed) = decoder.try_decode(&buffer, 5, Endian::Big).unwrap();
    assert_eq!(value, mixed_value());
    assert_eq!(consumed, size);
    assert_eq!(&buffer[..5], &[0xaa; 5]);
    assert_eq!(&buffer[5 + size..], &[0xaa; 2]);
}

#[test]
fn encoded_bytes_are_exact() {
    let mut buffer = vec![0u8; 19];
    let encoder = derive_pwrite(&mixed()).unwrap();
    encoder.try_encode(mixed_value(), &mut buffer, 0, Endian::Little).unwrap();
    assert_eq!(
        buffer,
        vec![
            0x7f, 0x02, 0x01, 0xfe, 0xff, 0x00, 0x80, 0x08, 0x07, 0x06, 0x05, 0x04, 0x03, 0x02,
            0x01, 0x00, 0x00, 0xc0, 0x3f
        ]
    );
    let mut buffer = vec![0u8; 19];
    encoder.try_encode(mixed_value(), &mut buffer, 0, Endian::Big).unwrap();
    assert_eq!(
        buffer,
        vec![
            0x7f, 0x01, 0x02, 0xff, 0xfe, 0x80, 0x00, 0x01, 0x02, 0x03, 0x04, 0x05, 0x06, 0x07,
            0x08, 0x3f, 0xc0, 0x00, 0x00
        ]
    );
}

#[test]
fn consumed_size_does_not_depend_on_values() {
    let decl = id_and_timestamp();
    let decoder = derive_pread(&decl).unwrap();
    let encoder = derive_pwrite(&decl).unwrap();
    for fill in [0x00u8, 0x5a, 0xff] {
        let source = vec![fill; 12];
        let (value, consumed) = decoder.try_decode(&source, 0, Endian::Little).unwrap();
        assert_eq!(consumed, 12);
        let mut target = vec![0u8; 12];
        assert!(encoder.accepts(&value));
        assert_eq!(encoder.try_encode(value, &mut target, 0, Endian::Little).unwrap(), 12);
        assert_eq!(target, source);
    }
}

#[test]
fn exchanged_bytes_give_exchanged_fields() {
    let decl = record(
        "Pair",
        vec![scalar("a", "u32"), scalar("gap", "u16"), scalar("b", "f32"), scalar("c", "u8")],
    );
    let decoder = derive_pread(&decl).unwrap();
    let plain = [1u8, 2, 3, 4, 5, 6, 7, 8, 9, 10, 11];
    let exchanged = [7u8, 8, 9, 10, 5, 6, 1, 2, 3, 4, 11];
    let (was, _) = decoder.try_decode(&plain, 0, Endian::Little).unwrap();
    let (now, _) = decoder.try_decode(&exchanged, 0, Endian::Little).unwrap();
    assert_eq!(now.fields[0], was.fields[2]);
    assert_eq!(now.fields[2], was.fields[0]);
    assert_eq!(now.fields[1], was.fields[1]);
    assert_eq!(now.fields[3], was.fields[3]);
    assert_eq!(was.fields[0], FieldValue::Scalar(0x04030201));
    assert_eq!(was.fields[2], FieldValue::Scalar(0x0a090807));
}

#[test]
fn array_elements_come_in_byte_order() {
    let decl = record("Table", vec![scalar("head", "u8"), array("cells", "u16", 4)]);
    let decoder = derive_pread(&decl).unwrap();
    let bytes = [0xeeu8, 0x10, 0x11, 0x20, 0x21, 0x30, 0x31, 0x40, 0x41];
    let (le, _) = decoder.try_decode(&bytes, 0, Endian::Little).unwrap();
    assert_eq!(le.fields[1], FieldValue::Array(vec![0x1110, 0x2120, 0x3130, 0x4140]));
    let (be, _) = decoder.try_decode(&bytes, 0, Endian::Big).unwrap();
    assert_eq!(be.fields[1], FieldValue::Array(vec![0x1011, 0x2021, 0x3031, 0x4041]));
}

#[test]
fn one_byte_short_fails() {
    let decoder = derive_pread(&id_and_timestamp()).unwrap();
    let bytes = [0u8; 12];
    assert!(decoder.try_decode(&bytes, 0, Endian::Little).is_ok());
    assert_eq!(
        decoder.try_decode(&bytes[..11], 0, Endian::Little),
        Err(Failure::TooBig { size: 8, len: 7 })
    );
    assert_eq!(
        decoder.try_decode(&bytes, 1, Endian::Little),
        Err(Failure::TooBig { size: 8, len: 7 })
    );
    assert_eq!(
        decoder.try_decode(&bytes[..4], 0, Endian::Little),
        Err(Failure::BadOffset(4))
    );
    assert_eq!(
        decoder.try_decode(&bytes[..3], 0, Endian::Little),
        Err(Failure::TooBig { size: 4, len: 3 })
    );
    assert_eq!(decoder.try_decode(&[], 0, Endian::Little), Err(Failure::BadOffset(0)));
    assert_eq!(decoder.try_decode(&bytes, 12, Endian::Little), Err(Failure::BadOffset(12)));
    assert_eq!(decoder.try_decode(&bytes, 40, Endian::Little), Err(Failure::BadOffset(40)));
}

#[test]
fn short_array_fails_at_the_first_element_that_does_not_fit() {
    let decl = record("Table", vec![array("cells", "u32", 3)]);
    let decoder = derive_pread(&decl).unwrap();
    let bytes = [0u8; 12];
    assert!(decoder.try_decode(&bytes, 0, Endian::Big).is_ok());
    assert_eq!(
        decoder.try_decode(&bytes[..11], 0, Endian::Big),
        Err(Failure::TooBig { size: 4, len: 3 })
    );
    assert_eq!(decoder.try_decode(&bytes[..8], 0, Endian::Big), Err(Failure::BadOffset(8)));
    assert_eq!(
        decoder.try_decode(&bytes[..5], 0, Endian::Big),
        Err(Failure::TooBig { size: 4, len: 1 })
    );
}

#[test]
fn id_and_timestamp_from_twelve_bytes() {
    let decoder = derive_pread(&id_and_timestamp()).unwrap();
    let bytes = [0xefu8, 0xbe, 0xad, 0xde, 0x00, 0x00, 0x00, 0x00, 0x00, 0x00, 0xe0, 0x3f];
    let (value, consumed) = decoder.try_decode(&bytes, 0, Endian::Little).unwrap();
    assert_eq!(value.fields.len(), 2);
    assert_eq!(value.fields[0], FieldValue::Scalar(0xdeadbeef));
    match value.fields[1] {
        FieldValue::Scalar(bits) => assert_eq!(f64::from_bits(bits), 0.5),
        FieldValue::Array(_) => panic!("a scalar was expected"),
    }
    assert_eq!(consumed, 12);
}

#[test]
fn name_of_32_bytes_from_zeros() {
    let decl = record("Data2", vec![array("name", "u8", 32)]);
    let decoder = derive_pread(&decl).unwrap();
    let (value, consumed) = decoder.try_decode(&[0u8; 64], 0, Endian::Little).unwrap();
    assert_eq!(value.fields, vec![FieldValue::Array(vec![0u64; 32])]);
    assert_eq!(consumed, 32);
    let mut fresh = vec![0x55u8; 32];
    let encoder = derive_pwrite(&decl).unwrap();
    assert!(encoder.accepts(&value));
    assert_eq!(encoder.try_encode(value, &mut fresh, 0, Endian::Little), Ok(32));
    assert_eq!(fresh, vec![0u8; 32]);
}

#[test]
fn size_ignores_the_context() {
    let sizer = derive_sizewith(&id_and_timestamp()).unwrap();
    assert_eq!(sizer.fixed_size(Endian::Little), 12);
    assert_eq!(sizer.fixed_size(Endian::Big), 12);
}

#[test]
fn failed_write_keeps_what_was_written() {
    let encoder = derive_pwrite(&id_and_timestamp()).unwrap();
    let value = Record {
        fields: vec![FieldValue::Scalar(0x11223344), FieldValue::Scalar(0x0102030405060708)],
    };
    let mut buffer = vec![0xeeu8; 10];
    assert_eq!(
        encoder.try_encode(value.clone(), &mut buffer, 0, Endian::Big),
        Err(Failure::TooBig { size: 8, len: 6 })
    );
    assert_eq!(buffer, vec![0x11, 0x22, 0x33, 0x44, 0xee, 0xee, 0xee, 0xee, 0xee, 0xee]);
    let mut buffer = vec![0xeeu8; 4];
    assert_eq!(
        encoder.try_encode(value.clone(), &mut buffer, 0, Endian::Big),
        Err(Failure::BadOffset(4))
    );
    assert_eq!(buffer, vec![0x11, 0x22, 0x33, 0x44]);
    let mut buffer = vec![0xeeu8; 3];
    assert_eq!(
        encoder.try_encode(value, &mut buffer, 0, Endian::Big),
        Err(Failure::TooBig { size: 4, len: 3 })
    );
    assert_eq!(buffer, vec![0xee; 3]);
}

#[test]
fn failed_array_write_keeps_the_elements_that_fit() {
    let decl = record("Table", vec![scalar("head", "u8"), array("cells", "u16", 3)]);
    let encoder = derive_pwrite(&decl).unwrap();
    let value = Record {
        fields: vec![FieldValue::Scalar(9), FieldValue::Array(vec![0x0a0b, 0x0c0d, 0x0e0f])],
    };
    let mut buffer = vec![0u8; 6];
    assert_eq!(
        encoder.try_encode(value, &mut buffer, 0, Endian::Little),
        Err(Failure::TooBig { size: 2, len: 1 })
    );
    assert_eq!(buffer, vec![9, 0x0b, 0x0a, 0x0d, 0x0c, 0]);
}

#[test]
fn unchecked_conversions_agree_with_checked_ones() {
    let decl = mixed();
    let size = derive_sizewith(&decl).unwrap().fixed_size(Endian::Big);
    for order in [Endian::Little, Endian::Big] {
        let mut checked = vec![0x33u8; size + 3];
        derive_pwrite(&decl).unwrap().try_encode(mixed_value(), &mut checked, 0, order).unwrap();
        let mut unchecked = vec![0x33u8; size + 3];
        let writer = derive_iowrite(&decl).unwrap();
        assert!(writer.accepts(&mixed_value()));
        assert!(unchecked.len() >= size);
        writer.encode_unchecked(mixed_value(), &mut unchecked, order);
        assert_eq!(checked, unchecked);
        assert_eq!(&unchecked[size..], &[0x33; 3]);
        let reader = derive_ioread(&decl).unwrap();
        assert_eq!(reader.decode_unchecked(&unchecked, order), mixed_value());
    }
}
