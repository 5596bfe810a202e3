//! The field types of the protocol, each a typed view of one field kind
//! with its exact wire size, encoder and decoder.
use vstd::prelude::*;
use vstd::utf8::{decode_utf8_encode_utf8, encode_utf8};

use crate::error::{McError, McResult};
use crate::field::{
    field_bytes, lemma_field_round_trip, parse_field, parse_prefixed, read_field_value,
    write_field_value, FieldKind, FieldModel, FieldValue,
};
use crate::varint::varint_size;

verus! {

/// A big-endian `i64` field of 8 bytes.
#[derive(Debug, Clone, Copy, PartialEq, Eq, Structural)]
pub struct LongField(pub i64);

impl LongField {
    pub fn new(value: i64) -> (r: Self)
        ensures
            r.0 == value,
    {
        LongField(value)
    }

    pub fn value(&self) -> (r: i64)
        ensures
            r == self.0,
    {
        self.0
    }

    /// Wire size in bytes.
    pub fn size(&self) -> (r: usize)
        ensures
            r == field_bytes(FieldModel::Long(self.0)).len(),
    {
        proof {
            lemma_field_round_trip(FieldModel::Long(self.0), Seq::empty());
            assert(field_bytes(FieldModel::Long(self.0)) + Seq::<u8>::empty() =~= field_bytes(
                FieldModel::Long(self.0),
            ));
        }
        8
    }

    /// Decodes this field at `pos` of `buf`, with the position after it.
    pub fn read_field(buf: &[u8], pos: usize) -> (r: McResult<(Self, usize)>)
        requires
            pos <= buf@.len(),
        ensures
            match parse_field(FieldKind::Long, buf@.subrange(pos as int, buf@.len() as int)) {
                Ok((m, n)) => r is Ok && m == FieldModel::Long(r.unwrap().0.0) && r.unwrap().1 == pos
                    + n,
                Err(e) => r == Err::<(LongField, usize), McError>(e),
            },
    {
        match read_field_value(FieldKind::Long, buf, pos) {
            Ok((FieldValue::Long(v), p)) => Ok((LongField(v), p)),
            Ok(_) => Err(McError::UnexpectedEof),
            Err(e) => Err(e),
        }
    }

    /// Appends the encoding to `out`.
    pub fn write_field(&self, out: &mut Vec<u8>)
        ensures
            final(out)@ == old(out)@ + field_bytes(FieldModel::Long(self.0)),
    {
        write_field_value(&FieldValue::Long(self.0), out);
    }
}

/// A big-endian `u16` field of 2 bytes.
#[derive(Debug, Clone, Copy, PartialEq, Eq, Structural)]
pub struct UShortField(pub u16);

impl UShortField {
    pub fn new(value: u16) -> (r: Self)
        ensures
            r.0 == value,
    {
        UShortField(value)
    }

    pub fn value(&self) -> (r: u16)
        ensures
            r == self.0,
    {
        self.0
    }

    /// Wire size in bytes.
    pub fn size(&self) -> (r: usize)
        ensures
            r == field_bytes(FieldModel::UShort(self.0)).len(),
    {
        proof {
            lemma_field_round_trip(FieldModel::UShort(self.0), Seq::empty());
            assert(field_bytes(FieldModel::UShort(self.0)) + Seq::<u8>::empty() =~= field_bytes(
                FieldModel::UShort(self.0),
            ));
        }
        2
    }

    /// Decodes this field at `pos` of `buf`, with the position after it.
    pub fn read_field(buf: &[u8], pos: usize) -> (r: McResult<(Self, usize)>)
        requires
            pos <= buf@.len(),
        ensures
            match parse_field(FieldKind::UShort, buf@.subrange(pos as int, buf@.len() as int)) {
                Ok((m, n)) => r is Ok && m == FieldModel::UShort(r.unwrap().0.0) && r.unwrap().1 == pos
                    + n,
                Err(e) => r == Err::<(UShortField, usize), McError>(e),
            },
    {
        match read_field_value(FieldKind::UShort, buf, pos) {
            Ok((FieldValue::UShort(v), p)) => Ok((UShortField(v), p)),
            Ok(_) => Err(McError::UnexpectedEof),
            Err(e) => Err(e),
        }
    }

    /// Appends the encoding to `out`.
    pub fn write_field(&self, out: &mut Vec<u8>)
        ensures
            final(out)@ == old(out)@ + field_bytes(FieldModel::UShort(self.0)),
    {
        write_field_value(&FieldValue::UShort(self.0), out);
    }
}

/// A big-endian `i32` field of 4 bytes.
#[derive(Debug, Clone, Copy, PartialEq, Eq, Structural)]
pub struct IntField(pub i32);

impl IntField {
    pub fn new(value: i32) -> (r: Self)
        ensures
            r.0 == value,
    {
        IntField(value)
    }

    pub fn value(&self) -> (r: i32)
        ensures
            r == self.0,
    {
        self.0
    }

    /// Wire size in bytes.
    pub fn size(&self) -> (r: usize)
        ensures
            r == field_bytes(FieldModel::Int(self.0)).len(),
    {
        proof {
            lemma_field_round_trip(FieldModel::Int(self.0), Seq::empty());
            assert(field_bytes(FieldModel::Int(self.0)) + Seq::<u8>::empty() =~= field_bytes(
                FieldModel::Int(self.0),
            ));
        }
        4
    }

    /// Decodes this field at `pos` of `buf`, with the position after it.
    pub fn read_field(buf: &[u8], pos: usize) -> (r: McResult<(Self, usize)>)
        requires
            pos <= buf@.len(),
        ensures
            match parse_field(FieldKind::Int, buf@.subrange(pos as int, buf@.len() as int)) {
                Ok((m, n)) => r is Ok && m == FieldModel::Int(r.unwrap().0.0) && r.unwrap().1 == pos
                    + n,
                Err(e) => r == Err::<(IntField, usize), McError>(e),
            },
    {
        match read_field_value(FieldKind::Int, buf, pos) {
            Ok((FieldValue::Int(v), p)) => Ok((IntField(v), p)),
            Ok(_) => Err(McError::UnexpectedEof),
            Err(e) => Err(e),
        }
    }

    /// Appends the encoding to `out`.
    pub fn write_field(&self, out: &mut Vec<u8>)
        ensures
            final(out)@ == old(out)@ + field_bytes(FieldModel::Int(self.0)),
    {
        write_field_value(&FieldValue::Int(self.0), out);
    }
}

/// A big-endian `i16` field of 2 bytes.
#[derive(Debug, Clone, Copy, PartialEq, Eq, Structural)]
pub struct ShortField(pub i16);

impl ShortField {
    pub fn new(value: i16) -> (r: Self)
        ensures
            r.0 == value,
    {
        ShortField(value)
    }

    pub fn value(&self) -> (r: i16)
        ensures
            r == self.0,
    {
        self.0
    }

    /// Wire size in bytes.
    pub fn size(&self) -> (r: usize)
        ensures
            r == field_bytes(FieldModel::Short(self.0)).len(),
    {
        proof {
            lemma_field_round_trip(FieldModel::Short(self.0), Seq::empty());
            assert(field_bytes(FieldModel::Short(self.0)) + Seq::<u8>::empty() =~= field_bytes(
                FieldModel::Short(self.0),
            ));
        }
        2
    }

    /// Decodes this field at `pos` of `buf`, with the position after it.
    pub fn read_field(buf: &[u8], pos: usize) -> (r: McResult<(Self, usize)>)
        requires
            pos <= buf@.len(),
        ensures
            match parse_field(FieldKind::Short, buf@.subrange(pos as int, buf@.len() as int)) {
                Ok((m, n)) => r is Ok && m == FieldModel::Short(r.unwrap().0.0) && r.unwrap().1 == pos
                    + n,
                Err(e) => r == Err::<(ShortField, usize), McError>(e),
            },
    {
        match read_field_value(FieldKind::Short, buf, pos) {
            Ok((FieldValue::Short(v), p)) => Ok((ShortField(v), p)),
            Ok(_) => Err(McError::UnexpectedEof),
            Err(e) => Err(e),
        }
    }

    /// Appends the encoding to `out`.
    pub fn write_field(&self, out: &mut Vec<u8>)
        ensures
            final(out)@ == old(out)@ + field_bytes(FieldModel::Short(self.0)),
    {
        write_field_value(&FieldValue::Short(self.0), out);
    }
}

/// A big-endian `i8` field of 1 byte.
#[derive(Debug, Clone, Copy, PartialEq, Eq, Structural)]
pub struct ByteField(pub i8);

impl ByteField {
    pub fn new(value: i8) -> (r: Self)
        ensures
            r.0 == value,
    {
        ByteField(value)
    }

    pub fn value(&self) -> (r: i8)
        ensures
            r == self.0,
    {
        self.0
    }

    /// Wire size in bytes.
    pub fn size(&self) -> (r: usize)
        ensures
            r == field_bytes(FieldModel::Byte(self.0)).len(),
    {
        proof {
            lemma_field_round_trip(FieldModel::Byte(self.0), Seq::empty());
            assert(field_bytes(FieldModel::Byte(self.0)) + Seq::<u8>::empty() =~= field_bytes(
                FieldModel::Byte(self.0),
            ));
        }
        1
    }

    /// Decodes this field at `pos` of `buf`, with the position after it.
    pub fn read_field(buf: &[u8], pos: usize) -> (r: McResult<(Self, usize)>)
        requires
            pos <= buf@.len(),
        ensures
            match parse_field(FieldKind::Byte, buf@.subrange(pos as int, buf@.len() as int)) {
                Ok((m, n)) => r is Ok && m == FieldModel::Byte(r.unwrap().0.0) && r.unwrap().1 == pos
                    + n,
                Err(e) => r == Err::<(ByteField, usize), McError>(e),
            },
    {
        match read_field_value(FieldKind::Byte, buf, pos) {
            Ok((FieldValue::Byte(v), p)) => Ok((ByteField(v), p)),
            Ok(_) => Err(McError::UnexpectedEof),
            Err(e) => Err(e),
        }
    }

    /// Appends the encoding to `out`.
    pub fn write_field(&self, out: &mut Vec<u8>)
        ensures
            final(out)@ == old(out)@ + field_bytes(FieldModel::Byte(self.0)),
    {
        write_field_value(&FieldValue::Byte(self.0), out);
    }
}

/// A big-endian `u8` field of 1 byte.
#[derive(Debug, Clone, Copy, PartialEq, Eq, Structural)]
pub struct UByteField(pub u8);

impl UByteField {
    pub fn new(value: u8) -> (r: Self)
        ensures
            r.0 == value,
    {
        UByteField(value)
    }

    pub fn value(&self) -> (r: u8)
        ensures
            r == self.0,
    {
        self.0
    }

    /// Wire size in bytes.
    pub fn size(&self) -> (r: usize)
        ensures
            r == field_bytes(FieldModel::UByte(self.0)).len(),
    {
        proof {
            lemma_field_round_trip(FieldModel::UByte(self.0), Seq::empty());
            assert(field_bytes(FieldModel::UByte(self.0)) + Seq::<u8>::empty() =~= field_bytes(
                FieldModel::UByte(self.0),
            ));
        }
        1
    }

    /// Decodes this field at `pos` of `buf`, with the position after it.
    pub fn read_field(buf: &[u8], pos: usize) -> (r: McResult<(Self, usize)>)
        requires
            pos <= buf@.len(),
        ensures
            match parse_field(FieldKind::UByte, buf@.subrange(pos as int, buf@.len() as int)) {
                Ok((m, n)) => r is Ok && m == FieldModel::UByte(r.unwrap().0.0) && r.unwrap().1 == pos
                    + n,
                Err(e) => r == Err::<(UByteField, usize), McError>(e),
            },
    {
        match read_field_value(FieldKind::UByte, buf, pos) {
            Ok((FieldValue::UByte(v), p)) => Ok((UByteField(v), p)),
            Ok(_) => Err(McError::UnexpectedEof),
            Err(e) => Err(e),
        }
    }

    /// Appends the encoding to `out`.
    pub fn write_field(&self, out: &mut Vec<u8>)
        ensures
            final(out)@ == old(out)@ + field_bytes(FieldModel::UByte(self.0)),
    {
        write_field_value(&FieldValue::UByte(self.0), out);
    }
}

/// A boolean field: one byte, 0 or 1.
#[derive(Debug, Clone, Copy, PartialEq, Eq, Structural)]
pub struct BoolField(pub bool);

impl BoolField {
    pub fn new(value: bool) -> (r: Self)
        ensures
            r.0 == value,
    {
        BoolField(value)
    }

    pub fn value(&self) -> (r: bool)
        ensures
            r == self.0,
    {
        self.0
    }

    /// Wire size in bytes.
    pub fn size(&self) -> (r: usize)
        ensures
            r == field_bytes(FieldModel::Bool(self.0)).len(),
    {
        proof {
            lemma_field_round_trip(FieldModel::Bool(self.0), Seq::empty());
            assert(field_bytes(FieldModel::Bool(self.0)) + Seq::<u8>::empty() =~= field_bytes(
                FieldModel::Bool(self.0),
            ));
        }
        1
    }

    /// Decodes this field at `pos` of `buf`, with the position after it.
    pub fn read_field(buf: &[u8], pos: usize) -> (r: McResult<(Self, usize)>)
        requires
            pos <= buf@.len(),
        ensures
            match parse_field(FieldKind::Bool, buf@.subrange(pos as int, buf@.len() as int)) {
                Ok((m, n)) => r is Ok && m == FieldModel::Bool(r.unwrap().0.0) && r.unwrap().1 == pos
                    + n,
                Err(e) => r == Err::<(BoolField, usize), McError>(e),
            },
    {
        match read_field_value(FieldKind::Bool, buf, pos) {
            Ok((FieldValue::Bool(v), p)) => Ok((BoolField(v), p)),
            Ok(_) => Err(McError::UnexpectedEof),
            Err(e) => Err(e),
        }
    }

    /// Appends the encoding to `out`.
    pub fn write_field(&self, out: &mut Vec<u8>)
        ensures
            final(out)@ == old(out)@ + field_bytes(FieldModel::Bool(self.0)),
    {
        write_field_value(&FieldValue::Bool(self.0), out);
    }
}

proof fn lemma_prefixed_length(s: Seq<u8>)
    ensures
        parse_prefixed(s) matches Ok((b, _)) ==> b.len() <= i32::MAX,
{
}

/// A string field: a VarInt byte length, then the UTF-8 bytes.
#[derive(Debug, Clone)]
pub struct StringField {
    value: String,
}

impl StringField {
    pub closed spec fn spec_value(&self) -> Seq<char> {
        self.value@
    }

    /// The UTF-8 length fits a VarInt.
    pub closed spec fn wf(&self) -> bool {
        encode_utf8(self.value@).len() <= i32::MAX
    }

    pub fn new(value: String) -> (r: Self)
        requires
            encode_utf8(value@).len() <= i32::MAX,
        ensures
            r.spec_value() == value@,
            r.wf(),
    {
        StringField { value }
    }

    /// The string, giving up the field.
    pub fn take(self) -> (r: String)
        ensures
            r@ == self.spec_value(),
    {
        self.value
    }

    pub fn value(&self) -> (r: &String)
        ensures
            r@ == self.spec_value(),
    {
        &self.value
    }

    /// Wire size: the length prefix and the bytes.
    pub fn size(&self) -> (r: usize)
        requires
            self.wf(),
        ensures
            r == field_bytes(FieldModel::Str(self.spec_value())).len(),
    {
        let len = self.value.as_str().as_bytes().len();
        varint_size(len as i32) + len
    }

    /// Decodes a string field at `pos` of `buf`, with the position after it.
    pub fn read_field(buf: &[u8], pos: usize) -> (r: McResult<(Self, usize)>)
        requires
            pos <= buf@.len(),
        ensures
            match parse_field(FieldKind::Str, buf@.subrange(pos as int, buf@.len() as int)) {
                Ok((m, n)) => r is Ok && m == FieldModel::Str(r.unwrap().0.spec_value())
                    && r.unwrap().0.wf() && r.unwrap().1 == pos + n,
                Err(e) => r == Err::<(StringField, usize), McError>(e),
            },
    {
        proof {
            let s = buf@.subrange(pos as int, buf@.len() as int);
            lemma_prefixed_length(s);
            if let Ok((b, _)) = parse_prefixed(s) {
                if vstd::utf8::valid_utf8(b) {
                    decode_utf8_encode_utf8(b);
                }
            }
        }
        match read_field_value(FieldKind::Str, buf, pos) {
            Ok((FieldValue::Str(v), p)) => Ok((StringField { value: v }, p)),
            Ok(_) => Err(McError::UnexpectedEof),
            Err(e) => Err(e),
        }
    }

    /// Appends the encoding to `out`.
    pub fn write_field(&self, out: &mut Vec<u8>)
        requires
            self.wf(),
        ensures
            final(out)@ == old(out)@ + field_bytes(FieldModel::Str(self.spec_value())),
    {
        write_field_value(&FieldValue::Str(self.value.clone()), out);
    }
}

/// Raw bytes.
#[derive(Debug, Clone)]
pub struct ByteArray(pub Vec<u8>);

/// A byte array field: a VarInt length, then the bytes.
#[derive(Debug, Clone)]
pub struct VarIntThenByteArrayField {
    array: ByteArray,
}

impl VarIntThenByteArrayField {
    pub closed spec fn spec_bytes(&self) -> Seq<u8> {
        self.array.0@
    }

    /// The length fits a VarInt.
    pub closed spec fn wf(&self) -> bool {
        self.array.0@.len() <= i32::MAX
    }

    pub fn new(buf: Vec<u8>) -> (r: Self)
        requires
            buf@.len() <= i32::MAX,
        ensures
            r.spec_bytes() == buf@,
            r.wf(),
    {
        VarIntThenByteArrayField { array: ByteArray(buf) }
    }

    pub fn bytes(&self) -> (r: &[u8])
        ensures
            r@ == self.spec_bytes(),
    {
        self.array.0.as_slice()
    }

    pub fn value(&self) -> (r: &ByteArray)
        ensures
            r.0@ == self.spec_bytes(),
    {
        &self.array
    }

    /// Wire size: the length prefix and the bytes.
    pub fn size(&self) -> (r: usize)
        requires
            self.wf(),
        ensures
            r == field_bytes(FieldModel::Bytes(self.spec_bytes())).len(),
    {
        let len = self.array.0.len();
        varint_size(len as i32) + len
    }

    /// Decodes a byte array field at `pos` of `buf`, with the position after
    /// it.
    pub fn read_field(buf: &[u8], pos: usize) -> (r: McResult<(Self, usize)>)
        requires
            pos <= buf@.len(),
        ensures
            match parse_field(FieldKind::Bytes, buf@.subrange(pos as int, buf@.len() as int)) {
                Ok((m, n)) => r is Ok && m == FieldModel::Bytes(r.unwrap().0.spec_bytes())
                    && r.unwrap().0.wf() && r.unwrap().1 == pos + n,
                Err(e) => r == Err::<(VarIntThenByteArrayField, usize), McError>(e),
            },
    {
        proof {
            lemma_prefixed_length(buf@.subrange(pos as int, buf@.len() as int));
        }
        match read_field_value(FieldKind::Bytes, buf, pos) {
            Ok((FieldValue::Bytes(v), p)) => Ok((VarIntThenByteArrayField { array: ByteArray(v) }, p)),
            Ok(_) => Err(McError::UnexpectedEof),
            Err(e) => Err(e),
        }
    }

    /// Appends the encoding to `out`.
    pub fn write_field(&self, out: &mut Vec<u8>)
        requires
            self.wf(),
        ensures
            final(out)@ == old(out)@ + field_bytes(FieldModel::Bytes(self.spec_bytes())),
    {
        let copy = crate::field::copy_range(self.array.0.as_slice(), 0, self.array.0.len());
        assert(self.array.0@.subrange(0, self.array.0@.len() as int) =~= self.array.0@);
        write_field_value(&FieldValue::Bytes(copy), out);
    }
}

} // verus!
