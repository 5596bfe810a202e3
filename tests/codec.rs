use mc::error::McError;
use mc::fields::{BoolField, LongField, StringField, UShortField, VarIntThenByteArrayField};
use mc::identifier::IdentifierField;
use mc::varint::{encode_varint, read_varint, varint_size, VarInt, VarIntField};

fn assert_varint(val: i32, bytes: &[u8]) {
    let varint = VarInt::new(val);
    assert_eq!(varint.value(), val);

    let mut encoded = Vec::new();
    varint.write(&mut encoded);
    assert_eq!(encoded.as_slice(), bytes);

    let (decoded, end) = VarInt::read(&encoded, 0).unwrap();
    assert_eq!(decoded.value(), val);
    assert_eq!(end, bytes.len());

    let field = VarIntField::new(val);
    assert_eq!(field.value(), val);
    assert_eq!(field.bytes(), bytes);
    assert_eq!(field.size(), bytes.len());
}

#[test]
fn varint() {
    assert_varint(0, &[0x00]);
    assert_varint(1, &[0x01]);
    assert_varint(127, &[0x7f]);
    assert_varint(128, &[0x80, 0x01]);
    assert_varint(255, &[0xff, 0x01]);
    assert_varint(2_147_483_647, &[0xff, 0xff, 0xff, 0xff, 0x07]);
    assert_varint(-1, &[0xff, 0xff, 0xff, 0xff, 0x0f]);
    assert_varint(-2_147_483_648, &[0x80, 0x80, 0x80, 0x80, 0x08]);
}

#[test]
fn varint_canonical_boundaries() {
    assert_eq!(encode_varint(0), vec![0x00]);
    assert_eq!(encode_varint(127), vec![0x7f]);
    assert_eq!(encode_varint(128), vec![0x80, 0x01]);
    assert_eq!(encode_varint(2_147_483_647), vec![0xff, 0xff, 0xff, 0xff, 0x07]);
    assert_eq!(encode_varint(-1), vec![0xff, 0xff, 0xff, 0xff, 0x0f]);
    assert_eq!(encode_varint(-2_147_483_648), vec![0x80, 0x80, 0x80, 0x80, 0x08]);
    assert_eq!(varint_size(16_384), 3);
}

#[test]
fn varint_round_trip_samples() {
    for v in [0, 1, -1, 63, 64, 300, 16_383, 16_384, -300, i32::MAX, i32::MIN, 1 << 28] {
        let mut bytes = encode_varint(v);
        assert!(!bytes.is_empty() && bytes.len() <= 5);
        let n = bytes.len();
        bytes.push(0x55);
        assert_eq!(read_varint(&bytes, 0), Ok((v, n)));
    }
}

#[test]
fn varint_rejects_oversized_and_overlong() {
    // a fifth byte that still carries the continuation bit
    assert_eq!(read_varint(&[0x80, 0x80, 0x80, 0x80, 0x80, 0x01], 0), Err(McError::BadVarInt));
    // zero written in two bytes is not the shortest form
    assert_eq!(read_varint(&[0x80, 0x00], 0), Err(McError::BadVarInt));
    // a fifth byte with bits beyond 32
    assert_eq!(read_varint(&[0xff, 0xff, 0xff, 0xff, 0x1f], 0), Err(McError::BadVarInt));
    // cut short
    assert_eq!(read_varint(&[0x80, 0x80], 0), Err(McError::UnexpectedEof));
    assert_eq!(read_varint(&[], 0), Err(McError::UnexpectedEof));
}

#[test]
fn sizes() {
    let s = "cor blimey";

    let a = StringField::new(s.to_owned());
    let b = UShortField::new(10);
    let c = VarIntField::new(150);

    let expected_len = 1 + s.len() + 2 + 2;
    assert_eq!(expected_len, a.size() + b.size() + c.size());

    let mut cursor = Vec::new();
    a.write_field(&mut cursor);
    b.write_field(&mut cursor);
    c.write_field(&mut cursor);
    assert_eq!(cursor.len(), expected_len);
}

#[test]
fn invalid_bool_values() {
    let read = BoolField::read_field(&[5u8], 0);
    assert!(read.is_err());
    assert_eq!(read.unwrap_err(), McError::BadBool);
    assert_eq!(BoolField::read_field(&[1u8], 0).unwrap(), (BoolField(true), 1));
    assert_eq!(BoolField::read_field(&[0u8], 0).unwrap(), (BoolField(false), 1));
}

#[test]
fn identifier() {
    let default = IdentifierField::new("bonbon".to_owned());
    let custom = IdentifierField::new("colon:sunglass".to_lowercase());
    let bad = IdentifierField::new("ohno:".to_lowercase());

    assert_eq!(default.namespace(), "minecraft");
    assert_eq!(default.location(), "bonbon");

    assert_eq!(custom.namespace(), "colon");
    assert_eq!(custom.location(), "sunglass");

    assert_eq!(bad.namespace(), "ohno");
    assert_eq!(bad.location(), "");
}

#[test]
fn string_round_trip() {
    for s in ["", "a", "cor blimey", "héllo wörld", "日本語", "🦀 crab"] {
        let field = StringField::new(s.to_owned());
        let mut bytes = Vec::new();
        field.write_field(&mut bytes);
        assert_eq!(field.size(), varint_size(s.len() as i32) + s.len());
        assert_eq!(bytes.len(), field.size());
        bytes.extend_from_slice(&[9, 9]);
        let (back, end) = StringField::read_field(&bytes, 0).unwrap();
        assert_eq!(back.value(), s);
        assert_eq!(end, field.size());
    }
}

#[test]
fn string_errors() {
    // not UTF-8
    assert_eq!(StringField::read_field(&[0x01, 0xff], 0).unwrap_err(), McError::BadString);
    // negative length
    assert_eq!(
        StringField::read_field(&[0xff, 0xff, 0xff, 0xff, 0x0f], 0).unwrap_err(),
        McError::BadLength(-1)
    );
    // shorter than its length
    assert_eq!(StringField::read_field(&[0x03, b'a'], 0).unwrap_err(), McError::UnexpectedEof);
}

#[test]
fn fixed_width_fields() {
    let mut out = Vec::new();
    LongField::new(-2).write_field(&mut out);
    assert_eq!(out, vec![0xff, 0xff, 0xff, 0xff, 0xff, 0xff, 0xff, 0xfe]);
    assert_eq!(LongField::read_field(&out, 0).unwrap(), (LongField(-2), 8));
    let mut out = Vec::new();
    UShortField::new(25565).write_field(&mut out);
    assert_eq!(out, vec![0x63, 0xdd]);
    assert_eq!(UShortField::new(25565).size(), 2);
    assert_eq!(LongField::read_field(&[1, 2, 3], 0).unwrap_err(), McError::UnexpectedEof);
}

#[test]
fn byte_array_field() {
    let field = VarIntThenByteArrayField::new(vec![1, 2, 3]);
    assert_eq!(field.bytes(), &[1, 2, 3]);
    assert_eq!(field.size(), 4);
    let mut out = Vec::new();
    field.write_field(&mut out);
    assert_eq!(out, vec![3, 1, 2, 3]);
    let (back, end) = VarIntThenByteArrayField::read_field(&out, 0).unwrap();
    assert_eq!(back.bytes(), &[1, 2, 3]);
    assert_eq!(end, 4);
}
