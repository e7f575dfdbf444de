//! Tests of the wire format: the byte helpers, the value codec's round
//! trip, and the decode-by-tag dispatcher.

use iris::codec::{decode, encode, DecodeRes, Value};
use iris::parser::Parser;
use iris::wire;

const SCHEMA: &str = "version 0.1.0;\npackage telemetry;\nstruct Battery {\n    f32 charge;\n}\nenum Status {\n    ACTIVE;\n    IDLE;\n}\nstruct Computer {\n    u32 id;\n    Battery[2] batteries;\n    Status status;\n}\n";

fn parsed(src: &str) -> iris::ast::Package {
    let mut p = Parser::new(src.to_string()).expect("tokenize");
    p.generate_ast().expect("parse");
    p.ast.packages.remove(0)
}

#[test]
fn from_be_bytes_helpers_read_big_endian() {
    assert_eq!(wire::from_be_bytes_u8(&[7]), Ok(7u8));
    assert_eq!(wire::from_be_bytes_u16(&[0x12, 0x34]), Ok(0x1234u16));
    assert_eq!(wire::from_be_bytes_u32(&[0x12, 0x34, 0x56, 0x78]), Ok(0x12345678u32));
    assert_eq!(wire::from_be_bytes_i8(&[0xff]), Ok(-1i8));
    assert_eq!(wire::from_be_bytes_i16(&[0x80, 0x00]), Ok(i16::MIN));
    assert_eq!(wire::from_be_bytes_i32(&[0xff, 0xff, 0xff, 0xfe]), Ok(-2i32));
    assert_eq!(wire::from_be_bytes_bool(&[0]), Ok(false));
    assert_eq!(wire::from_be_bytes_bool(&[1]), Ok(true));
    assert_eq!(wire::from_be_bytes_bool(&[2]), Ok(true));
}

#[test]
fn from_be_bytes_helpers_reject_wrong_lengths() {
    assert_eq!(wire::from_be_bytes_u8(&[]), Err("The length must be 1."));
    assert_eq!(wire::from_be_bytes_u16(&[1]), Err("The length must be 2."));
    assert_eq!(wire::from_be_bytes_u32(&[1, 2, 3]), Err("The length must be 4."));
    assert_eq!(wire::from_be_bytes_i8(&[1, 2]), Err("The length must be 1."));
    assert_eq!(wire::from_be_bytes_i16(&[1, 2, 3]), Err("The length must be 2."));
    assert_eq!(wire::from_be_bytes_i32(&[1, 2, 3, 4, 5]), Err("The length must be 4."));
    assert_eq!(wire::from_be_bytes_bool(&[]), Err("The length must be 1."));
}

#[test]
fn battery_encodes_to_tag_then_ieee_bits() {
    // Encoding Battery{charge: 88.32} must yield exactly 8 bytes: the 4-byte
    // FNV-1a hash of "Battery" big-endian, then the IEEE-754 big-endian f32.
    let pkg = parsed(SCHEMA);
    let battery = &pkg.structs[0];
    let v = Value::StructVal(vec![Value::F32Bits(88.32f32.to_bits())]);
    let bytes = encode(&pkg, battery, &v).expect("valid value");
    let mut expected = 2215305518u32.to_be_bytes().to_vec();
    expected.extend_from_slice(&88.32f32.to_be_bytes());
    assert_eq!(bytes, expected);
    assert_eq!(bytes.len(), 8);

    // Decoding those 8 bytes must reproduce charge == 88.32.
    match decode(&pkg, &bytes) {
        Ok(DecodeRes::Struct(name, Value::StructVal(fields))) => {
            assert_eq!(name, "Battery");
            assert_eq!(fields.len(), 1);
            match fields[0] {
                Value::F32Bits(bits) => assert_eq!(f32::from_bits(bits), 88.32f32),
                ref other => panic!("unexpected field {:?}", other),
            }
        }
        other => panic!("unexpected decode result {:?}", other),
    }
}

#[test]
fn wrong_length_with_correct_tag_is_a_decode_error() {
    let pkg = parsed(SCHEMA);
    let battery = &pkg.structs[0];
    let v = Value::StructVal(vec![Value::F32Bits(88.32f32.to_bits())]);
    let bytes = encode(&pkg, battery, &v).expect("valid value");
    let short = &bytes[..7];
    assert!(matches!(decode(&pkg, short), Err("Unknown data.")));
    let mut long = bytes.clone();
    long.push(0);
    assert!(matches!(decode(&pkg, &long), Err("Unknown data.")));
}

#[test]
fn enum_ordinals_encode_as_big_endian_u32() {
    // ACTIVE encodes as ordinal 0, IDLE as ordinal 1, each as 4 bytes.
    let pkg = parsed(SCHEMA);
    let computer = &pkg.structs[1];
    let mk = |ordinal: u32| {
        Value::StructVal(vec![
            Value::U32(0xA1B2C3D4),
            Value::ArrayVal(vec![
                Value::StructVal(vec![Value::F32Bits(1.0f32.to_bits())]),
                Value::StructVal(vec![Value::F32Bits(2.0f32.to_bits())]),
            ]),
            Value::EnumVal(ordinal),
        ])
    };
    let active = encode(&pkg, computer, &mk(0)).expect("valid");
    let idle = encode(&pkg, computer, &mk(1)).expect("valid");
    assert_eq!(active.len(), 4 + 16);
    assert_eq!(&active[16..20], &[0, 0, 0, 0]);
    assert_eq!(&idle[16..20], &[0, 0, 0, 1]);
    // An out-of-range ordinal is not a valid value.
    assert!(encode(&pkg, computer, &mk(2)).is_none());
}

#[test]
fn round_trip_with_nested_structs_and_arrays() {
    // decode(encode(v)) == v field-for-field, nested structs and arrays
    // included.
    let pkg = parsed(SCHEMA);
    let computer = &pkg.structs[1];
    let v = Value::StructVal(vec![
        Value::U32(7),
        Value::ArrayVal(vec![
            Value::StructVal(vec![Value::F32Bits(3.5f32.to_bits())]),
            Value::StructVal(vec![Value::F32Bits((-0.25f32).to_bits())]),
        ]),
        Value::EnumVal(1),
    ]);
    let bytes = encode(&pkg, computer, &v).expect("valid value");
    assert_eq!(bytes.len(), 4 + 16);
    match decode(&pkg, &bytes) {
        Ok(DecodeRes::Struct(name, w)) => {
            assert_eq!(name, "Computer");
            // Re-encoding the decoded value gives back the same bytes.
            let again = encode(&pkg, computer, &w).expect("still valid");
            assert_eq!(again, bytes);
            match w {
                Value::StructVal(fields) => {
                    assert!(matches!(fields[0], Value::U32(7)));
                    assert!(matches!(fields[2], Value::EnumVal(1)));
                    match &fields[1] {
                        Value::ArrayVal(elems) => {
                            assert_eq!(elems.len(), 2);
                            match &elems[1] {
                                Value::StructVal(inner) => match inner[0] {
                                    Value::F32Bits(b) => {
                                        assert_eq!(f32::from_bits(b), -0.25f32)
                                    }
                                    ref other => panic!("unexpected {:?}", other),
                                },
                                other => panic!("unexpected {:?}", other),
                            }
                        }
                        other => panic!("unexpected {:?}", other),
                    }
                }
                other => panic!("unexpected {:?}", other),
            }
        }
        other => panic!("unexpected decode result {:?}", other),
    }
}

#[test]
fn round_trip_all_primitive_kinds() {
    let src = "version 0.1.0;\npackage p;\nstruct All {\n    u8 a;\n    u16 b;\n    u32 c;\n    i8 d;\n    i16 e;\n    i32 f;\n    bool g;\n    f32 h;\n}\n";
    let pkg = parsed(src);
    let s = &pkg.structs[0];
    let v = Value::StructVal(vec![
        Value::U8(0xAB),
        Value::U16(0xCDEF),
        Value::U32(0x01234567),
        Value::I8(-5),
        Value::I16(-12345),
        Value::I32(-123456789),
        Value::Bool(true),
        Value::F32Bits(f32::NEG_INFINITY.to_bits()),
    ]);
    let bytes = encode(&pkg, s, &v).expect("valid value");
    assert_eq!(bytes.len() as u32, 4 + s.size(&pkg).unwrap());
    match decode(&pkg, &bytes) {
        Ok(DecodeRes::Struct(_, w)) => {
            let again = encode(&pkg, s, &w).expect("still valid");
            assert_eq!(again, bytes);
            match w {
                Value::StructVal(fields) => {
                    assert!(matches!(fields[0], Value::U8(0xAB)));
                    assert!(matches!(fields[1], Value::U16(0xCDEF)));
                    assert!(matches!(fields[2], Value::U32(0x01234567)));
                    assert!(matches!(fields[3], Value::I8(-5)));
                    assert!(matches!(fields[4], Value::I16(-12345)));
                    assert!(matches!(fields[5], Value::I32(-123456789)));
                    assert!(matches!(fields[6], Value::Bool(true)));
                }
                other => panic!("unexpected {:?}", other),
            }
        }
        other => panic!("unexpected decode result {:?}", other),
    }
}

#[test]
fn dispatcher_routes_every_struct_and_rejects_the_rest() {
    // For a package with structs {A, B, C}, every one of the three valid
    // tag+length combinations routes to the right decoder, and any other tag
    // or a correct tag with wrong length is rejected.
    let src = "version 0.1.0;\npackage p;\nstruct Alpha { u8 x; }\nstruct Beta { u16 x; }\nstruct Gamma { u32 x; }\n";
    let pkg = parsed(src);
    let vals = [
        Value::StructVal(vec![Value::U8(1)]),
        Value::StructVal(vec![Value::U16(2)]),
        Value::StructVal(vec![Value::U32(3)]),
    ];
    let names = ["Alpha", "Beta", "Gamma"];
    for i in 0..3 {
        let bytes = encode(&pkg, &pkg.structs[i], &vals[i]).expect("valid value");
        match decode(&pkg, &bytes) {
            Ok(DecodeRes::Struct(name, _)) => assert_eq!(name, names[i]),
            other => panic!("unexpected decode result {:?}", other),
        }
        // Correct tag, wrong length.
        let mut long = bytes.clone();
        long.push(0);
        assert!(matches!(decode(&pkg, &long), Err("Unknown data.")));
    }
    // An arbitrary 4th tag is rejected.
    let bogus = [0xDE, 0xAD, 0xBE, 0xEF, 0x00];
    assert!(matches!(decode(&pkg, &bogus), Err("Unknown data.")));
    // A buffer shorter than a tag is rejected.
    assert!(matches!(decode(&pkg, &[1, 2, 3]), Err("Unknown data.")));
}

#[test]
fn strict_decode_rejects_bad_bool_and_ordinal() {
    let src = "version 0.1.0;\npackage p;\nstruct F { bool b; }\nenum E { ONLY; }\nstruct G { E e; }\n";
    let pkg = parsed(src);
    let fb = encode(&pkg, &pkg.structs[0], &Value::StructVal(vec![Value::Bool(true)])).unwrap();
    let mut bad = fb.clone();
    bad[4] = 2;
    assert!(matches!(decode(&pkg, &bad), Err("Unknown data.")));
    let gb = encode(&pkg, &pkg.structs[1], &Value::StructVal(vec![Value::EnumVal(0)])).unwrap();
    let mut bad2 = gb.clone();
    bad2[7] = 1; // ordinal 1 is out of range for a one-variant enum
    assert!(matches!(decode(&pkg, &bad2), Err("Unknown data.")));
}

#[test]
fn encode_rejects_invalid_values() {
    let pkg = parsed(SCHEMA);
    let battery = &pkg.structs[0];
    // Wrong kind for the field.
    assert!(encode(&pkg, battery, &Value::StructVal(vec![Value::U8(1)])).is_none());
    // Wrong field count.
    assert!(encode(&pkg, battery, &Value::StructVal(vec![])).is_none());
    // Not a struct value at all.
    assert!(encode(&pkg, battery, &Value::U8(1)).is_none());
}

#[test]
fn zero_length_arrays_encode_to_nothing() {
    let src = "version 0.1.0;\npackage p;\nstruct Z { u8[0] a; u8 b; }\n";
    let pkg = parsed(src);
    let s = &pkg.structs[0];
    assert_eq!(s.size(&pkg), Some(1));
    let v = Value::StructVal(vec![Value::ArrayVal(vec![]), Value::U8(9)]);
    let bytes = encode(&pkg, s, &v).expect("valid value");
    assert_eq!(bytes.len(), 5);
    assert_eq!(bytes[4], 9);
    match decode(&pkg, &bytes) {
        Ok(DecodeRes::Struct(_, w)) => {
            let again = encode(&pkg, s, &w).expect("still valid");
            assert_eq!(again, bytes);
        }
        other => panic!("unexpected decode result {:?}", other),
    }
}
