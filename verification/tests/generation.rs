use scroll_derive::failure::Failure;
use scroll_derive::generate::{
    derive_ioread, derive_iowrite, derive_pread, derive_pwrite, derive_sizewith, impl_struct,
    impl_try_from_ctx, size_with,
};
use scroll_derive::scalar::ScalarType;
use scroll_derive::schema::{
    plan_field, plan_fields, ArrayLength, Body, FieldDecl, GenError, RecordDecl, Strategy,
};
use scroll_derive::sizer::measure;
use scroll_derive::value::{FieldValue, Record};
use scroll_derive::word::Endian;

fn scalar(name: &str, ty: &str) -> FieldDecl {
    FieldDecl { name: name.to_string(), ty: ty.to_string(), array_length: None }
}

fn array(name: &str, ty: &str, len: u64) -> FieldDecl {
    FieldDecl {
        name: name.to_string(),
        ty: ty.to_string(),
        array_length: Some(ArrayLength::Literal(len)),
    }
}

fn computed(name: &str, ty: &str) -> FieldDecl {
    FieldDecl {
        name: name.to_string(),
        ty: ty.to_string(),
        array_length: Some(ArrayLength::Computed),
    }
}

fn record(name: &str, fields: Vec<FieldDecl>) -> RecordDecl {
    RecordDecl { name: name.to_string(), body: Body::Struct(fields) }
}

fn all_five(decl: &RecordDecl) -> Vec<Option<GenError>> {
    vec![
        derive_pread(decl).err(),
        derive_pwrite(decl).err(),
        derive_sizewith(decl).err(),
        derive_ioread(decl).err(),
        derive_iowrite(decl).err(),
    ]
}

#[test]
fn an_enum_is_not_a_struct() {
    let decl = RecordDecl { name: "Choice".to_string(), body: Body::Enum };
    assert_eq!(all_five(&decl), vec![Some(GenError::NotAStruct); 5]);
}

#[test]
fn a_struct_without_named_fields_is_not_regular() {
    let tuple = RecordDecl { name: "Pair".to_string(), body: Body::Tuple };
    assert_eq!(all_five(&tuple), vec![Some(GenError::NotARegularStruct); 5]);
    let unit = RecordDecl { name: "Marker".to_string(), body: Body::Unit };
    assert_eq!(all_five(&unit), vec![Some(GenError::NotARegularStruct); 5]);
}

#[test]
fn a_struct_without_fields_is_empty() {
    assert_eq!(all_five(&record("Nothing", vec![])), vec![Some(GenError::EmptyRecord); 5]);
}

#[test]
fn a_computed_array_length_is_a_bad_array_size() {
    let decl = record("Table", vec![scalar("head", "u8"), computed("cells", "u16")]);
    assert_eq!(all_five(&decl), vec![Some(GenError::BadArraySize { field: 1 }); 5]);
}

#[test]
fn an_unknown_type_is_unsupported() {
    let decl = record("Outer", vec![scalar("a", "u8"), scalar("b", "u16"), scalar("c", "Inner")]);
    assert_eq!(all_five(&decl), vec![Some(GenError::UnsupportedType { field: 2 }); 5]);
    let decl = record("Outer", vec![array("parts", "usize", 2)]);
    assert_eq!(all_five(&decl), vec![Some(GenError::UnsupportedType { field: 0 }); 5]);
}

#[test]
fn the_first_faulty_field_is_reported() {
    let decl = record(
        "Outer",
        vec![scalar("a", "u8"), scalar("b", "Inner"), computed("c", "u8"), scalar("d", "str")],
    );
    assert_eq!(all_five(&decl), vec![Some(GenError::UnsupportedType { field: 1 }); 5]);
    let decl = record("Outer", vec![computed("a", "Inner"), scalar("b", "Inner")]);
    assert_eq!(all_five(&decl), vec![Some(GenError::BadArraySize { field: 0 }); 5]);
}

#[test]
fn a_record_too_large_to_measure_has_no_size_procedure() {
    let decl = record("Huge", vec![array("cells", "u64", u64::MAX)]);
    assert_eq!(derive_sizewith(&decl).err(), Some(GenError::TooLarge));
    assert!(derive_pread(&decl).is_ok());
    let decl = record("Huge", vec![array("a", "u8", u64::MAX), scalar("b", "u8")]);
    assert_eq!(derive_sizewith(&decl).err(), Some(GenError::TooLarge));
    let decl = record("Large", vec![array("a", "u8", u64::MAX - 1), scalar("b", "u8")]);
    assert_eq!(derive_sizewith(&decl).unwrap().fixed_size(Endian::Little), usize::MAX);
}

#[test]
fn the_planner_chooses_by_array_length() {
    let plan = plan_field(&scalar("id", "u32"), 0).unwrap();
    assert_eq!(plan.name, "id");
    assert_eq!(plan.ty, ScalarType::U32);
    assert_eq!(plan.strategy, Strategy::Scalar);
    let plan = plan_field(&array("name", "u8", 32), 3).unwrap();
    assert_eq!(plan.ty, ScalarType::U8);
    assert_eq!(plan.strategy, Strategy::Array(32));
    assert_eq!(plan_field(&computed("name", "u8"), 3), Err(GenError::BadArraySize { field: 3 }));
    assert_eq!(plan_field(&scalar("x", "u128"), 7), Err(GenError::UnsupportedType { field: 7 }));
    let plans = plan_fields(&vec![scalar("a", "i8"), array("b", "f64", 2)]).unwrap();
    assert_eq!(plans.len(), 2);
    assert_eq!(plans[0].strategy, Strategy::Scalar);
    assert_eq!(plans[1].strategy, Strategy::Array(2));
    assert_eq!(measure(&plans), Some(17));
}

#[test]
fn the_procedures_keep_name_and_field_order() {
    let decl = record("Data", vec![scalar("id", "u32"), array("name", "u8", 4)]);
    let decoder = derive_pread(&decl).unwrap();
    assert_eq!(decoder.record(), "Data");
    let names: Vec<&str> = decoder.fields().iter().map(|f| f.name.as_str()).collect();
    assert_eq!(names, vec!["id", "name"]);
    let encoder = derive_pwrite(&decl).unwrap();
    assert_eq!(encoder.record(), "Data");
    assert_eq!(encoder.fields()[1].strategy, Strategy::Array(4));
    let sizer = derive_sizewith(&decl).unwrap();
    assert_eq!(sizer.record(), "Data");
    assert_eq!(sizer.fields().len(), 2);
    let reader = derive_ioread(&decl).unwrap();
    assert_eq!(reader.record(), "Data");
    let advances: Vec<usize> = reader.steps().iter().map(|s| s.advance).collect();
    assert_eq!(advances, vec![4, 1]);
    let writer = derive_iowrite(&decl).unwrap();
    assert_eq!(writer.record(), "Data");
    assert_eq!(writer.steps()[0].field.name, "id");
    assert_eq!(writer.steps()[1].advance, 1);
}

#[test]
fn the_inner_generators_agree_with_the_derives() {
    let fields = vec![scalar("id", "u32"), scalar("timestamp", "f64")];
    let name = "Data".to_string();
    let decl = record("Data", fields.clone());
    let direct = impl_struct(&name, &fields).unwrap();
    let through = impl_try_from_ctx(&decl).unwrap();
    assert_eq!(direct.fields(), through.fields());
    assert_eq!(size_with(&name, &fields).unwrap().fixed_size(Endian::Big), 12);
    assert_eq!(impl_struct(&name, &vec![]).err(), Some(GenError::EmptyRecord));
}

#[test]
fn every_scalar_type_resolves_by_its_name() {
    let all = [
        (ScalarType::U8, "u8", 1),
        (ScalarType::I8, "i8", 1),
        (ScalarType::U16, "u16", 2),
        (ScalarType::I16, "i16", 2),
        (ScalarType::U32, "u32", 4),
        (ScalarType::I32, "i32", 4),
        (ScalarType::U64, "u64", 8),
        (ScalarType::I64, "i64", 8),
        (ScalarType::F32, "f32", 4),
        (ScalarType::F64, "f64", 8),
    ];
    for (ty, name, width) in all {
        assert_eq!(ScalarType::resolve(name), Some(ty));
        assert_eq!(ty.name(), name);
        assert_eq!(ty.width(), width);
    }
    for other in ["", "u", "u128", "usize", "bool", "U8", " u8", "[u8; 4]", "Inner"] {
        assert_eq!(ScalarType::resolve(other), None);
    }
}

fn one(ty: &str) -> RecordDecl {
    record("One", vec![scalar("value", ty)])
}

#[test]
fn checked_reads_of_every_width() {
    let bytes = [0x01u8, 0x02, 0x03, 0x04, 0x05, 0x06, 0x07, 0x08, 0x09];
    let cases: [(&str, u64, u64); 4] = [
        ("u8", 0x02, 0x02),
        ("i16", 0x0302, 0x0203),
        ("f32", 0x05040302, 0x02030405),
        ("i64", 0x0908070605040302, 0x0203040506070809),
    ];
    for (ty, little, big) in cases {
        let decoder = derive_pread(&one(ty)).unwrap();
        let (value, _) = decoder.try_decode(&bytes, 1, Endian::Little).unwrap();
        assert_eq!(value.fields, vec![FieldValue::Scalar(little)]);
        let (value, _) = decoder.try_decode(&bytes, 1, Endian::Big).unwrap();
        assert_eq!(value.fields, vec![FieldValue::Scalar(big)]);
    }
}

#[test]
fn checked_writes_of_every_width() {
    let cases: [(&str, u64, Vec<u8>, Vec<u8>); 4] = [
        ("i8", 0x81, vec![0, 0x81, 0, 0, 0, 0, 0, 0, 0, 0], vec![0, 0x81, 0, 0, 0, 0, 0, 0, 0, 0]),
        ("u16", 0x8182, vec![0, 0x82, 0x81, 0, 0, 0, 0, 0, 0, 0], vec![0, 0x81, 0x82, 0, 0, 0, 0, 0, 0, 0]),
        (
            "i32",
            0x81828384,
            vec![0, 0x84, 0x83, 0x82, 0x81, 0, 0, 0, 0, 0],
            vec![0, 0x81, 0x82, 0x83, 0x84, 0, 0, 0, 0, 0],
        ),
        (
            "f64",
            0x8182838485868788,
            vec![0, 0x88, 0x87, 0x86, 0x85, 0x84, 0x83, 0x82, 0x81, 0],
            vec![0, 0x81, 0x82, 0x83, 0x84, 0x85, 0x86, 0x87, 0x88, 0],
        ),
    ];
    for (ty, bits, little, big) in cases {
        let encoder = derive_pwrite(&one(ty)).unwrap();
        let value = Record { fields: vec![FieldValue::Scalar(bits)] };
        assert!(encoder.accepts(&value));
        let mut buffer = vec![0u8; 10];
        let width = encoder.try_encode(value.clone(), &mut buffer, 1, Endian::Little).unwrap();
        assert_eq!(width, encoder.fields()[0].ty.width());
        assert_eq!(buffer, little);
        let mut buffer = vec![0u8; 10];
        encoder.try_encode(value, &mut buffer, 1, Endian::Big).unwrap();
        assert_eq!(buffer, big);
    }
}

#[test]
fn unchecked_reads_of_every_width() {
    let bytes = [0x01u8, 0x02, 0x03, 0x04, 0x05, 0x06, 0x07, 0x08, 0x09];
    let cases: [(&str, u64, u64); 4] = [
        ("i8", 0x01, 0x01),
        ("u16", 0x0201, 0x0102),
        ("u32", 0x04030201, 0x01020304),
        ("u64", 0x0807060504030201, 0x0102030405060708),
    ];
    for (ty, little, big) in cases {
        let reader = derive_ioread(&one(ty)).unwrap();
        assert_eq!(reader.decode_unchecked(&bytes, Endian::Little).fields, vec![FieldValue::Scalar(little)]);
        assert_eq!(reader.decode_unchecked(&bytes, Endian::Big).fields, vec![FieldValue::Scalar(big)]);
    }
}

#[test]
fn unchecked_writes_of_every_width() {
    let cases: [(&str, u64, Vec<u8>, Vec<u8>); 4] = [
        ("u8", 0x81, vec![0x81, 0, 0, 0, 0, 0, 0, 0, 0], vec![0x81, 0, 0, 0, 0, 0, 0, 0, 0]),
        ("i16", 0x8182, vec![0x82, 0x81, 0, 0, 0, 0, 0, 0, 0], vec![0x81, 0x82, 0, 0, 0, 0, 0, 0, 0]),
        ("f32", 0x81828384, vec![0x84, 0x83, 0x82, 0x81, 0, 0, 0, 0, 0], vec![0x81, 0x82, 0x83, 0x84, 0, 0, 0, 0, 0]),
        (
            "i64",
            0x8182838485868788,
            vec![0x88, 0x87, 0x86, 0x85, 0x84, 0x83, 0x82, 0x81, 0],
            vec![0x81, 0x82, 0x83, 0x84, 0x85, 0x86, 0x87, 0x88, 0],
        ),
    ];
    for (ty, bits, little, big) in cases {
        let writer = derive_iowrite(&one(ty)).unwrap();
        let value = Record { fields: vec![FieldValue::Scalar(bits)] };
        assert!(writer.accepts(&value));
        let mut buffer = vec![0u8; 9];
        writer.encode_unchecked(value.clone(), &mut buffer, Endian::Little);
        assert_eq!(buffer, little);
        let mut buffer = vec![0u8; 9];
        writer.encode_unchecked(value, &mut buffer, Endian::Big);
        assert_eq!(buffer, big);
    }
}

#[test]
fn checked_accesses_fail_alike_for_every_width() {
    for (ty, width) in [("u8", 1usize), ("u16", 2), ("u32", 4), ("u64", 8)] {
        let decoder = derive_pread(&one(ty)).unwrap();
        let encoder = derive_pwrite(&one(ty)).unwrap();
        let value = Record { fields: vec![FieldValue::Scalar(0)] };
        let mut buffer = vec![0x77u8; width + 2];
        assert_eq!(
            decoder.try_decode(&buffer, width + 2, Endian::Little),
            Err(Failure::BadOffset(width + 2))
        );
        assert_eq!(
            encoder.try_encode(value.clone(), &mut buffer, width + 2, Endian::Little),
            Err(Failure::BadOffset(width + 2))
        );
        if width > 1 {
            assert_eq!(
                decoder.try_decode(&buffer, 3, Endian::Little),
                Err(Failure::TooBig { size: width, len: width - 1 })
            );
            assert_eq!(
                encoder.try_encode(value, &mut buffer, 3, Endian::Little),
                Err(Failure::TooBig { size: width, len: width - 1 })
            );
        }
        assert_eq!(buffer, vec![0x77u8; width + 2]);
    }
}

#[test]
fn a_record_of_another_shape_is_not_accepted() {
    let decl = record("Table", vec![scalar("head", "u8"), array("cells", "u16", 2)]);
    let encoder = derive_pwrite(&decl).unwrap();
    let writer = derive_iowrite(&decl).unwrap();
    let good = Record { fields: vec![FieldValue::Scalar(255), FieldValue::Array(vec![65535, 0])] };
    let wide = Record { fields: vec![FieldValue::Scalar(256), FieldValue::Array(vec![0, 0])] };
    let wide_cell = Record { fields: vec![FieldValue::Scalar(0), FieldValue::Array(vec![0, 65536])] };
    let short = Record { fields: vec![FieldValue::Scalar(0), FieldValue::Array(vec![0])] };
    let swapped = Record { fields: vec![FieldValue::Array(vec![0, 0]), FieldValue::Scalar(0)] };
    let fewer = Record { fields: vec![FieldValue::Scalar(0)] };
    assert!(encoder.accepts(&good));
    assert!(writer.accepts(&good));
    for bad in [wide, wide_cell, short, swapped, fewer] {
        assert!(!encoder.accepts(&bad));
        assert!(!writer.accepts(&bad));
    }
}
