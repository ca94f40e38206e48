use gdbus::convert::{FromFFI, FromVariant, ToArg, ToFFI, ToFormat, ToVariant};
use gdbus::signature::{parse_signature, tuple_signature, TypeTag};
use gdbus::variant::{CBool, DecodingError, EncodingError, Value, Variant};

fn round_trip<T>(t: T) -> T
where
    T: ToVariant + FromVariant,
{
    let v = t.to_variant().expect("encodes");
    T::from_variant(v).expect("decodes")
}

#[test]
fn round_trip_booleans() {
    assert_eq!(round_trip((true,)), (true,));
    assert_eq!(round_trip((false,)), (false,));
}

#[test]
fn round_trip_integers_at_their_limits() {
    assert_eq!(round_trip((0u8,)), (0u8,));
    assert_eq!(round_trip((u8::MAX,)), (u8::MAX,));
    assert_eq!(round_trip((i16::MIN,)), (i16::MIN,));
    assert_eq!(round_trip((i16::MAX,)), (i16::MAX,));
    assert_eq!(round_trip((-1i16,)), (-1i16,));
    assert_eq!(round_trip((u16::MAX,)), (u16::MAX,));
    assert_eq!(round_trip((i32::MIN,)), (i32::MIN,));
    assert_eq!(round_trip((i32::MAX,)), (i32::MAX,));
    assert_eq!(round_trip((u32::MAX,)), (u32::MAX,));
    assert_eq!(round_trip((i64::MIN,)), (i64::MIN,));
    assert_eq!(round_trip((i64::MAX,)), (i64::MAX,));
    assert_eq!(round_trip((u64::MAX,)), (u64::MAX,));
}

#[test]
fn round_trip_text() {
    assert_eq!(round_trip((String::from("hello"),)), (String::from("hello"),));
    assert_eq!(round_trip((String::new(),)), (String::new(),));
    assert_eq!(round_trip((String::from("h\u{e9}llo \u{2713} \u{1F600}"),)), (String::from("h\u{e9}llo \u{2713} \u{1F600}"),));
}

#[test]
fn round_trip_tuples_of_each_arity() {
    assert_eq!(round_trip((7i64,)), (7i64,));
    assert_eq!(round_trip((3u8, -4i16)), (3u8, -4i16));
    assert_eq!(
        round_trip((String::from("x"), true, 9u32)),
        (String::from("x"), true, 9u32)
    );
    assert_eq!(round_trip((1i32, 2u16, 3u64, false)), (1i32, 2u16, 3u64, false));
    assert_eq!(
        round_trip((-39i16, 40u16, 41i32, 42u32, 43u64)),
        (-39i16, 40u16, 41i32, 42u32, 43u64)
    );
}

#[test]
fn signature_of_one_int64() {
    let v = (5i64,).to_variant().unwrap();
    assert_eq!(v.signature(), "(x)");
}

#[test]
fn signature_of_byte_and_int16() {
    let v = (1u8, 2i16).to_variant().unwrap();
    assert_eq!(v.signature(), "(yn)");
}

#[test]
fn signature_characters_of_every_type() {
    let v = Variant::from_values(&vec![
        Value::Boolean(true),
        Value::Byte(1),
        Value::Int16(1),
        Value::UInt16(1),
        Value::Int32(1),
        Value::UInt32(1),
        Value::Int64(1),
        Value::UInt64(1),
        Value::Text(String::from("a")),
    ])
    .unwrap();
    assert_eq!(v.signature(), "(bynqiuxts)");
}

#[test]
fn int64_is_not_read_as_int32() {
    let v = (41i64,).to_variant().unwrap();
    assert_eq!(<(i32,)>::from_variant(v), Err(DecodingError::SignatureMismatch));
}

#[test]
fn arity_mismatch_is_rejected() {
    let v = (1i32, 2i32).to_variant().unwrap();
    assert_eq!(<(i32,)>::from_variant(v), Err(DecodingError::SignatureMismatch));
}

#[test]
fn text_with_nul_is_not_encoded() {
    assert_eq!(("a\0b",).to_variant().err(), Some(EncodingError::EmbeddedNul));
    assert_eq!(
        (1u8, String::from("\0")).to_variant().err(),
        Some(EncodingError::EmbeddedNul)
    );
}

#[test]
fn wire_bytes_are_little_endian_and_nul_terminated() {
    let v = (true, 0x0102i16, String::from("ab")).to_variant().unwrap();
    assert_eq!(v.body(), &vec![1, 0, 0, 0, 2, 1, 97, 98, 0]);
    assert_eq!(v.tags(), &vec![TypeTag::Boolean, TypeTag::Int16, TypeTag::Text]);
    let w = (-2i32, 0x0102030405060708u64).to_variant().unwrap();
    assert_eq!(w.body(), &vec![0xfe, 0xff, 0xff, 0xff, 8, 7, 6, 5, 4, 3, 2, 1]);
}

#[test]
fn any_nonzero_flag_reads_as_true() {
    let v = Variant::new(vec![TypeTag::Boolean], vec![2, 0, 0, 0]);
    assert_eq!(<(bool,)>::from_variant(v), Ok((true,)));
    let w = Variant::new(vec![TypeTag::Boolean], vec![0, 0, 0, 0]);
    assert_eq!(<(bool,)>::from_variant(w), Ok((false,)));
}

#[test]
fn malformed_bodies_are_rejected() {
    let invalid_utf8 = Variant::new(vec![TypeTag::Text], vec![0xff, 0]);
    assert_eq!(<(String,)>::from_variant(invalid_utf8), Err(DecodingError::InvalidBody));
    let unterminated = Variant::new(vec![TypeTag::Text], vec![97, 98]);
    assert_eq!(<(String,)>::from_variant(unterminated), Err(DecodingError::InvalidBody));
    let short = Variant::new(vec![TypeTag::Int32], vec![1, 2, 3]);
    assert_eq!(<(i32,)>::from_variant(short), Err(DecodingError::InvalidBody));
    let trailing = Variant::new(vec![TypeTag::Byte], vec![1, 2]);
    assert_eq!(<(u8,)>::from_variant(trailing), Err(DecodingError::InvalidBody));
}

#[test]
fn values_decode_in_position() {
    let v = Variant::new(
        vec![TypeTag::Text, TypeTag::Byte],
        vec![104, 105, 0, 7],
    );
    assert_eq!(
        v.to_values(&vec![TypeTag::Text, TypeTag::Byte]),
        Ok(vec![Value::Text(String::from("hi")), Value::Byte(7)])
    );
}

#[test]
fn signatures_parse_and_print() {
    assert_eq!(
        parse_signature("(xsb)"),
        Some(vec![TypeTag::Int64, TypeTag::Text, TypeTag::Boolean])
    );
    assert_eq!(parse_signature("()"), Some(vec![]));
    assert_eq!(parse_signature("(z)"), None);
    assert_eq!(parse_signature("xs"), None);
    assert_eq!(parse_signature("(x"), None);
    assert_eq!(tuple_signature(&vec![TypeTag::UInt16, TypeTag::UInt64]), "(qt)");
    assert_eq!(tuple_signature(&vec![]), "()");
}

#[test]
fn codes_name_their_types() {
    assert_eq!(TypeTag::from_code('q'), Some(TypeTag::UInt16));
    assert_eq!(TypeTag::from_code('a'), None);
    assert_eq!(TypeTag::Text.code(), 's');
    assert_eq!(<u32 as ToFormat>::to_format(), TypeTag::UInt32);
}

#[test]
fn native_values_convert_to_wire_values_and_back() {
    assert_eq!(5u16.to_ffi(), Value::UInt16(5));
    assert_eq!("hi".to_ffi(), Value::Text(String::from("hi")));
    assert_eq!(<u16 as FromFFI>::from_ffi(Value::UInt16(5)), Some(5u16));
    assert_eq!(<u16 as FromFFI>::from_ffi(Value::Int16(5)), None);
    assert_eq!(<String as FromFFI>::from_ffi(Value::Text(String::from("z"))), Some(String::from("z")));
}

#[test]
fn wire_values_write_their_bytes() {
    let mut out = vec![9u8];
    assert_eq!(Value::UInt16(0x0304).to_arg(&mut out), Ok(()));
    assert_eq!(out, vec![9, 4, 3]);
    assert_eq!(CBool(1).to_arg(&mut out), Ok(()));
    assert_eq!(out, vec![9, 4, 3, 1, 0, 0, 0]);
    let mut bad = Vec::new();
    assert_eq!(Value::Text(String::from("a\0")).to_arg(&mut bad), Err(EncodingError::EmbeddedNul));
}
