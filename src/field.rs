//! Typed protocol fields: what each kind holds, its exact bytes on the wire,
//! and the decoder that reads it back.
use vstd::prelude::*;
use vstd::utf8::*;

use crate::codec::{
    be_bytes, be_value, byte_cap, lemma_be_bytes_len, lemma_be_round_trip, lemma_be_value_bound,
    lemma_byte_caps, pattern_of, read_be, signed_of, write_be,
};
use crate::error::{McError, McResult};
use crate::varint::{
    encode_varint, group_cap, lemma_varint_bound, lemma_varint_canonical, lemma_varint_round_trip,
    lemma_varint_seq_len, parse_groups, parse_varint, read_varint, u32_of, varint_bytes, varint_seq,
};

verus! {

/// The kinds of field a packet layout is made of.
#[derive(Debug, Clone, Copy, PartialEq, Eq, Structural)]
pub enum FieldKind {
    Bool,
    Byte,
    UByte,
    Short,
    UShort,
    Int,
    Long,
    /// A 32-bit float, carried as its bit pattern.
    Float,
    /// A 64-bit float, carried as its bit pattern.
    Double,
    VarInt,
    /// VarInt byte length, then UTF-8 bytes.
    Str,
    /// VarInt length, then raw bytes.
    Bytes,
    /// Every byte up to the end of the payload.
    Rest,
    /// Three signed coordinates packed into 64 bits: x 26, z 26, y 12.
    Position,
}

/// The value of a field, as contracts speak of it.
pub enum FieldModel {
    Bool(bool),
    Byte(i8),
    UByte(u8),
    Short(i16),
    UShort(u16),
    Int(i32),
    Long(i64),
    Float(u32),
    Double(u64),
    VarInt(i32),
    Str(Seq<char>),
    Bytes(Seq<u8>),
    Rest(Seq<u8>),
    Position(i32, i32, i32),
}

/// A decoded field.
#[derive(Debug, Clone)]
pub enum FieldValue {
    Bool(bool),
    Byte(i8),
    UByte(u8),
    Short(i16),
    UShort(u16),
    Int(i32),
    Long(i64),
    Float(u32),
    Double(u64),
    VarInt(i32),
    Str(String),
    Bytes(Vec<u8>),
    Rest(Vec<u8>),
    Position(i32, i32, i32),
}

impl View for FieldValue {
    type V = FieldModel;

    open spec fn view(&self) -> FieldModel {
        match self {
            FieldValue::Bool(b) => FieldModel::Bool(*b),
            FieldValue::Byte(x) => FieldModel::Byte(*x),
            FieldValue::UByte(x) => FieldModel::UByte(*x),
            FieldValue::Short(x) => FieldModel::Short(*x),
            FieldValue::UShort(x) => FieldModel::UShort(*x),
            FieldValue::Int(x) => FieldModel::Int(*x),
            FieldValue::Long(x) => FieldModel::Long(*x),
            FieldValue::Float(x) => FieldModel::Float(*x),
            FieldValue::Double(x) => FieldModel::Double(*x),
            FieldValue::VarInt(x) => FieldModel::VarInt(*x),
            FieldValue::Str(s) => FieldModel::Str(s@),
            FieldValue::Bytes(b) => FieldModel::Bytes(b@),
            FieldValue::Rest(b) => FieldModel::Rest(b@),
            FieldValue::Position(x, y, z) => FieldModel::Position(*x, *y, *z),
        }
    }
}

pub open spec fn kind_of(m: FieldModel) -> FieldKind {
    match m {
        FieldModel::Bool(_) => FieldKind::Bool,
        FieldModel::Byte(_) => FieldKind::Byte,
        FieldModel::UByte(_) => FieldKind::UByte,
        FieldModel::Short(_) => FieldKind::Short,
        FieldModel::UShort(_) => FieldKind::UShort,
        FieldModel::Int(_) => FieldKind::Int,
        FieldModel::Long(_) => FieldKind::Long,
        FieldModel::Float(_) => FieldKind::Float,
        FieldModel::Double(_) => FieldKind::Double,
        FieldModel::VarInt(_) => FieldKind::VarInt,
        FieldModel::Str(_) => FieldKind::Str,
        FieldModel::Bytes(_) => FieldKind::Bytes,
        FieldModel::Rest(_) => FieldKind::Rest,
        FieldModel::Position(..) => FieldKind::Position,
    }
}

pub open spec fn pos_cap(bits: nat) -> nat {
    if bits == 12 {
        0x1000
    } else {
        0x400_0000
    }
}

/// The signed value of a `bits`-wide slice.
pub open spec fn signed_slice(u: nat, bits: nat) -> int {
    if 2 * u >= pos_cap(bits) {
        u - pos_cap(bits)
    } else {
        u as int
    }
}

/// A coordinate that fits a `bits`-wide signed slice.
pub open spec fn fits_slice(v: int, bits: nat) -> bool {
    -(pos_cap(bits) as int) <= 2 * v < pos_cap(bits)
}

/// The 64-bit word that packs a position.
pub open spec fn pack_position(x: i32, y: i32, z: i32) -> nat {
    (pattern_of(x as int, 4) % 0x400_0000) * 0x40_0000_0000 + (pattern_of(z as int, 4)
        % 0x400_0000) * 0x1000 + pattern_of(y as int, 4) % 0x1000
}

/// The position that a 64-bit word packs.
pub open spec fn unpack_position(w: nat) -> FieldModel {
    FieldModel::Position(
        signed_slice(w / 0x40_0000_0000, 26) as i32,
        signed_slice(w % 0x1000, 12) as i32,
        signed_slice((w / 0x1000) % 0x400_0000, 26) as i32,
    )
}

/// Whether a value can be written: lengths fit a VarInt, coordinates fit
/// their slices.
pub open spec fn field_ok(m: FieldModel) -> bool {
    match m {
        FieldModel::Str(c) => encode_utf8(c).len() <= i32::MAX,
        FieldModel::Bytes(b) => b.len() <= i32::MAX,
        FieldModel::Position(x, y, z) => fits_slice(x as int, 26) && fits_slice(y as int, 12)
            && fits_slice(z as int, 26),
        _ => true,
    }
}

/// The exact bytes of a field on the wire.
pub open spec fn field_bytes(m: FieldModel) -> Seq<u8> {
    match m {
        FieldModel::Bool(b) => seq![if b { 1u8 } else { 0u8 }],
        FieldModel::Byte(x) => be_bytes(pattern_of(x as int, 1), 1),
        FieldModel::UByte(x) => be_bytes(x as nat, 1),
        FieldModel::Short(x) => be_bytes(pattern_of(x as int, 2), 2),
        FieldModel::UShort(x) => be_bytes(x as nat, 2),
        FieldModel::Int(x) => be_bytes(pattern_of(x as int, 4), 4),
        FieldModel::Long(x) => be_bytes(pattern_of(x as int, 8), 8),
        FieldModel::Float(x) => be_bytes(x as nat, 4),
        FieldModel::Double(x) => be_bytes(x as nat, 8),
        FieldModel::VarInt(x) => varint_bytes(x),
        FieldModel::Str(c) => varint_bytes(encode_utf8(c).len() as i32) + encode_utf8(c),
        FieldModel::Bytes(b) => varint_bytes(b.len() as i32) + b,
        FieldModel::Rest(b) => b,
        FieldModel::Position(x, y, z) => be_bytes(pack_position(x, y, z), 8),
    }
}

/// Reads an `n`-byte number at the start of `s`.
pub open spec fn parse_fixed(s: Seq<u8>, n: nat) -> Result<nat, McError> {
    if s.len() < n {
        Err(McError::UnexpectedEof)
    } else {
        Ok(be_value(s.take(n as int)))
    }
}

/// Reads a VarInt length and that many bytes at the start of `s`.
pub open spec fn parse_prefixed(s: Seq<u8>) -> Result<(Seq<u8>, nat), McError> {
    match parse_varint(s) {
        Err(e) => Err(e),
        Ok((len, n)) => if len < 0 {
            Err(McError::BadLength(len))
        } else if n + len > s.len() {
            Err(McError::UnexpectedEof)
        } else {
            Ok((s.subrange(n as int, n + len), (n + len) as nat))
        },
    }
}

/// Decoding one field of kind `k` at the start of `s`: its value and the
/// number of bytes it took.
pub open spec fn parse_field(k: FieldKind, s: Seq<u8>) -> Result<(FieldModel, nat), McError> {
    match k {
        FieldKind::Bool => match parse_fixed(s, 1) {
            Err(e) => Err(e),
            Ok(u) => if u == 0 {
                Ok((FieldModel::Bool(false), 1))
            } else if u == 1 {
                Ok((FieldModel::Bool(true), 1))
            } else {
                Err(McError::BadBool)
            },
        },
        FieldKind::Byte => match parse_fixed(s, 1) {
            Err(e) => Err(e),
            Ok(u) => Ok((FieldModel::Byte(signed_of(u, 1) as i8), 1)),
        },
        FieldKind::UByte => match parse_fixed(s, 1) {
            Err(e) => Err(e),
            Ok(u) => Ok((FieldModel::UByte(u as u8), 1)),
        },
        FieldKind::Short => match parse_fixed(s, 2) {
            Err(e) => Err(e),
            Ok(u) => Ok((FieldModel::Short(signed_of(u, 2) as i16), 2)),
        },
        FieldKind::UShort => match parse_fixed(s, 2) {
            Err(e) => Err(e),
            Ok(u) => Ok((FieldModel::UShort(u as u16), 2)),
        },
        FieldKind::Int => match parse_fixed(s, 4) {
            Err(e) => Err(e),
            Ok(u) => Ok((FieldModel::Int(signed_of(u, 4) as i32), 4)),
        },
        FieldKind::Long => match parse_fixed(s, 8) {
            Err(e) => Err(e),
            Ok(u) => Ok((FieldModel::Long(signed_of(u, 8) as i64), 8)),
        },
        FieldKind::Float => match parse_fixed(s, 4) {
            Err(e) => Err(e),
            Ok(u) => Ok((FieldModel::Float(u as u32), 4)),
        },
        FieldKind::Double => match parse_fixed(s, 8) {
            Err(e) => Err(e),
            Ok(u) => Ok((FieldModel::Double(u as u64), 8)),
        },
        FieldKind::VarInt => match parse_varint(s) {
            Err(e) => Err(e),
            Ok((v, n)) => Ok((FieldModel::VarInt(v), n)),
        },
        FieldKind::Str => match parse_prefixed(s) {
            Err(e) => Err(e),
            Ok((b, n)) => if valid_utf8(b) {
                Ok((FieldModel::Str(decode_utf8(b)), n))
            } else {
                Err(McError::BadString)
            },
        },
        FieldKind::Bytes => match parse_prefixed(s) {
            Err(e) => Err(e),
            Ok((b, n)) => Ok((FieldModel::Bytes(b), n)),
        },
        FieldKind::Rest => Ok((FieldModel::Rest(s), s.len())),
        FieldKind::Position => match parse_fixed(s, 8) {
            Err(e) => Err(e),
            Ok(u) => Ok((unpack_position(u), 8)),
        },
    }
}

/// Relies on std's `String::from_utf8`: it succeeds exactly on valid UTF-8,
/// and the string it returns is made of the given bytes.
#[verifier::external_body]
fn string_from_utf8(bytes: Vec<u8>) -> (r: Option<String>)
    ensures
        r is Some <==> valid_utf8(bytes@),
        r matches Some(s) ==> encode_utf8(s@) == bytes@,
{
    String::from_utf8(bytes).ok()
}

/// The bytes of `buf` from `start` to `end`.
pub fn copy_range(buf: &[u8], start: usize, end: usize) -> (r: Vec<u8>)
    requires
        start <= end <= buf@.len(),
    ensures
        r@ == buf@.subrange(start as int, end as int),
{
    let mut out: Vec<u8> = Vec::new();
    let mut i: usize = start;
    while i < end
        invariant
            start <= i <= end <= buf@.len(),
            out@ == buf@.subrange(start as int, i as int),
        decreases end - i,
    {
        out.push(buf[i]);
        assert(out@ =~= buf@.subrange(start as int, i + 1));
        i = i + 1;
    }
    out
}

fn read_prefixed(buf: &[u8], pos: usize) -> (r: McResult<(Vec<u8>, usize)>)
    requires
        pos <= buf@.len(),
    ensures
        match parse_prefixed(buf@.subrange(pos as int, buf@.len() as int)) {
            Ok((b, n)) => r is Ok && r.unwrap().0@ == b && r.unwrap().1 == pos + n,
            Err(e) => r == Err::<(Vec<u8>, usize), McError>(e),
        },
        r matches Ok((_, p)) ==> pos <= p <= buf@.len(),
{
    let ghost s = buf@.subrange(pos as int, buf@.len() as int);
    let (len, p) = match read_varint(buf, pos) {
        Ok(x) => x,
        Err(e) => return Err(e),
    };
    if len < 0 {
        return Err(McError::BadLength(len));
    }
    if len as usize > buf.len() - p {
        return Err(McError::UnexpectedEof);
    }
    let end = p + len as usize;
    let bytes = copy_range(buf, p, end);
    assert(bytes@ =~= s.subrange((p - pos) as int, (end - pos) as int));
    Ok((bytes, end))
}

/// Decodes one field of kind `kind` at `pos` of `buf`, with the position
/// after it.
pub fn read_field_value(kind: FieldKind, buf: &[u8], pos: usize) -> (r: McResult<
    (FieldValue, usize),
>)
    requires
        pos <= buf@.len(),
    ensures
        match parse_field(kind, buf@.subrange(pos as int, buf@.len() as int)) {
            Ok((m, n)) => r is Ok && r.unwrap().0@ == m && r.unwrap().1 == pos + n,
            Err(e) => r == Err::<(FieldValue, usize), McError>(e),
        },
        r matches Ok((_, p)) ==> pos <= p <= buf@.len(),
{
    let ghost s = buf@.subrange(pos as int, buf@.len() as int);
    proof {
        lemma_byte_caps();
    }
    let width: usize = match kind {
        FieldKind::Bool | FieldKind::Byte | FieldKind::UByte => 1,
        FieldKind::Short | FieldKind::UShort => 2,
        FieldKind::Int | FieldKind::Float => 4,
        FieldKind::Long | FieldKind::Double | FieldKind::Position => 8,
        _ => 0,
    };
    if width > 0 {
        let (u, p) = match read_be(buf, pos, width) {
            Ok(x) => x,
            Err(e) => return Err(e),
        };
        assert(s.take(width as int) =~= buf@.subrange(pos as int, pos + width));
        let v = match kind {
            FieldKind::Bool => if u == 0 {
                FieldValue::Bool(false)
            } else if u == 1 {
                FieldValue::Bool(true)
            } else {
                return Err(McError::BadBool);
            },
            FieldKind::Byte => FieldValue::Byte(
                if u >= 0x80 {
                    (u as i64 - 0x100) as i8
                } else {
                    u as i8
                },
            ),
            FieldKind::UByte => FieldValue::UByte(u as u8),
            FieldKind::Short => FieldValue::Short(
                if u >= 0x8000 {
                    (u as i64 - 0x1_0000) as i16
                } else {
                    u as i16
                },
            ),
            FieldKind::UShort => FieldValue::UShort(u as u16),
            FieldKind::Int => FieldValue::Int(
                if u >= 0x8000_0000 {
                    (u as i64 - 0x1_0000_0000) as i32
                } else {
                    u as i32
                },
            ),
            FieldKind::Long => FieldValue::Long(
                if u >= 0x8000_0000_0000_0000 {
                    (u - 0x8000_0000_0000_0000) as i64 - 0x7fff_ffff_ffff_ffff - 1
                } else {
                    u as i64
                },
            ),
            FieldKind::Float => FieldValue::Float(u as u32),
            FieldKind::Double => FieldValue::Double(u),
            _ => {
                let xu = u / 0x40_0000_0000;
                let yu = u % 0x1000;
                let zu = (u / 0x1000) % 0x400_0000;
                let x: i32 = if xu >= 0x200_0000 {
                    (xu as i32) - 0x400_0000
                } else {
                    xu as i32
                };
                let y: i32 = if yu >= 0x800 {
                    (yu as i32) - 0x1000
                } else {
                    yu as i32
                };
                let z: i32 = if zu >= 0x200_0000 {
                    (zu as i32) - 0x400_0000
                } else {
                    zu as i32
                };
                FieldValue::Position(x, y, z)
            },
        };
        return Ok((v, p));
    }
    match kind {
        FieldKind::VarInt => match read_varint(buf, pos) {
            Ok((v, p)) => Ok((FieldValue::VarInt(v), p)),
            Err(e) => Err(e),
        },
        FieldKind::Str => match read_prefixed(buf, pos) {
            Ok((b, p)) => {
                let ghost bv = b@;
                match string_from_utf8(b) {
                    Some(text) => {
                        proof {
                            encode_utf8_decode_utf8(text@);
                        }
                        Ok((FieldValue::Str(text), p))
                    },
                    None => Err(McError::BadString),
                }
            },
            Err(e) => Err(e),
        },
        FieldKind::Bytes => match read_prefixed(buf, pos) {
            Ok((b, p)) => Ok((FieldValue::Bytes(b), p)),
            Err(e) => Err(e),
        },
        _ => {
            let rest = copy_range(buf, pos, buf.len());
            Ok((FieldValue::Rest(rest), buf.len()))
        },
    }
}

/// Appends the bytes of `v` to `out`.
pub fn write_field_value(v: &FieldValue, out: &mut Vec<u8>)
    requires
        field_ok(v@),
    ensures
        final(out)@ == old(out)@ + field_bytes(v@),
{
    proof {
        lemma_byte_caps();
    }
    match v {
        FieldValue::Bool(b) => out.push(if *b { 1u8 } else { 0u8 }),
        FieldValue::Byte(x) => write_be(
            if *x >= 0 {
                *x as u64
            } else {
                (*x as i64 + 0x100) as u64
            },
            1,
            out,
        ),
        FieldValue::UByte(x) => write_be(*x as u64, 1, out),
        FieldValue::Short(x) => write_be(
            if *x >= 0 {
                *x as u64
            } else {
                (*x as i64 + 0x1_0000) as u64
            },
            2,
            out,
        ),
        FieldValue::UShort(x) => write_be(*x as u64, 2, out),
        FieldValue::Int(x) => write_be(
            if *x >= 0 {
                *x as u64
            } else {
                (*x as i64 + 0x1_0000_0000) as u64
            },
            4,
            out,
        ),
        FieldValue::Long(x) => write_be(
            if *x >= 0 {
                *x as u64
            } else {
                ((*x + 0x7fff_ffff_ffff_ffff + 1) as u64) + 0x8000_0000_0000_0000
            },
            8,
            out,
        ),
        FieldValue::Float(x) => write_be(*x as u64, 4, out),
        FieldValue::Double(x) => write_be(*x, 8, out),
        FieldValue::VarInt(x) => {
            let bytes = encode_varint(*x);
            out.extend_from_slice(bytes.as_slice());
        },
        FieldValue::Str(text) => {
            let bytes = text.as_str().as_bytes();
            let prefix = encode_varint(bytes.len() as i32);
            out.extend_from_slice(prefix.as_slice());
            out.extend_from_slice(bytes);
            assert(final(out)@ =~= old(out)@ + field_bytes(v@));
        },
        FieldValue::Bytes(bytes) => {
            let prefix = encode_varint(bytes.len() as i32);
            out.extend_from_slice(prefix.as_slice());
            out.extend_from_slice(bytes.as_slice());
            assert(final(out)@ =~= old(out)@ + field_bytes(v@));
        },
        FieldValue::Rest(bytes) => out.extend_from_slice(bytes.as_slice()),
        FieldValue::Position(x, y, z) => {
            let xp: u64 = if *x >= 0 {
                *x as u64
            } else {
                (*x as i64 + 0x1_0000_0000) as u64
            };
            let yp: u64 = if *y >= 0 {
                *y as u64
            } else {
                (*y as i64 + 0x1_0000_0000) as u64
            };
            let zp: u64 = if *z >= 0 {
                *z as u64
            } else {
                (*z as i64 + 0x1_0000_0000) as u64
            };
            let word = (xp % 0x400_0000) * 0x40_0000_0000 + (zp % 0x400_0000) * 0x1000 + yp
                % 0x1000;
            write_be(word, 8, out);
        },
    }
}

proof fn lemma_fixed_round_trip(p: nat, n: nat, rest: Seq<u8>)
    requires
        p < byte_cap(n),
    ensures
        parse_fixed(be_bytes(p, n) + rest, n) == Ok::<nat, McError>(p),
        be_bytes(p, n).len() == n,
{
    lemma_be_bytes_len(p, n);
    lemma_be_round_trip(p, n);
    assert((be_bytes(p, n) + rest).take(n as int) =~= be_bytes(p, n));
}

#[verifier::rlimit(60)]
#[verifier::spinoff_prover]
proof fn lemma_position_round_trip(x: i32, y: i32, z: i32)
    requires
        fits_slice(x as int, 26),
        fits_slice(y as int, 12),
        fits_slice(z as int, 26),
    ensures
        pack_position(x, y, z) < byte_cap(8),
        unpack_position(pack_position(x, y, z)) == FieldModel::Position(x, y, z),
{
    lemma_byte_caps();
    let xs = pattern_of(x as int, 4) % 0x400_0000;
    let ys = pattern_of(y as int, 4) % 0x1000;
    let zs = pattern_of(z as int, 4) % 0x400_0000;
    let w = pack_position(x, y, z);
    assert(xs == if x >= 0 { x as int } else { x + 0x400_0000 });
    assert(ys == if y >= 0 { y as int } else { y + 0x1000 });
    assert(zs == if z >= 0 { z as int } else { z + 0x400_0000 });
    assert(w == xs * 0x40_0000_0000 + zs * 0x1000 + ys);
    assert(w / 0x40_0000_0000 == xs && w % 0x1000 == ys && (w / 0x1000) % 0x400_0000 == zs
        && w < 0x1_0000_0000_0000_0000) by (nonlinear_arith)
        requires
            w == xs * 0x40_0000_0000 + zs * 0x1000 + ys,
            0 <= xs < 0x400_0000,
            0 <= zs < 0x400_0000,
            0 <= ys < 0x1000,
    ;
}

proof fn lemma_prefixed_round_trip(b: Seq<u8>, rest: Seq<u8>)
    requires
        b.len() <= i32::MAX,
    ensures
        parse_prefixed(varint_bytes(b.len() as i32) + b + rest) == Ok::<(Seq<u8>, nat), McError>(
            (b, (varint_bytes(b.len() as i32) + b).len()),
        ),
{
    let len = b.len() as i32;
    let s = varint_bytes(len) + b + rest;
    lemma_varint_round_trip(len, b + rest);
    assert(s =~= varint_bytes(len) + (b + rest));
    let k = varint_bytes(len).len();
    assert(s.subrange(k as int, k + len) =~= b);
}

proof fn lemma_signed_round_trip(x: int, n: nat)
    requires
        n == 1 || n == 2 || n == 4 || n == 8,
        -byte_cap(n) <= 2 * x < byte_cap(n),
    ensures
        pattern_of(x, n) < byte_cap(n),
        signed_of(pattern_of(x, n), n) == x,
{
}

/// A string decodes back to itself from its encoding, whatever follows;
/// the encoding is the VarInt of the UTF-8 length, then the UTF-8 bytes.
pub proof fn lemma_str_round_trip(c: Seq<char>, rest: Seq<u8>)
    requires
        encode_utf8(c).len() <= i32::MAX,
    ensures
        parse_field(FieldKind::Str, field_bytes(FieldModel::Str(c)) + rest) == Ok::<
            (FieldModel, nat),
            McError,
        >((FieldModel::Str(c), field_bytes(FieldModel::Str(c)).len())),
        field_bytes(FieldModel::Str(c)).len() == varint_bytes(encode_utf8(c).len() as i32).len()
            + encode_utf8(c).len(),
{
    lemma_prefixed_round_trip(encode_utf8(c), rest);
    encode_utf8_valid_utf8(c);
    encode_utf8_decode_utf8(c);
}

proof fn lemma_numeric_round_trip(m: FieldModel, rest: Seq<u8>)
    requires
        m is Byte || m is UByte || m is Short || m is UShort || m is Int || m is Long || m is Float
            || m is Double,
    ensures
        parse_field(kind_of(m), field_bytes(m) + rest) == Ok::<(FieldModel, nat), McError>(
            (m, field_bytes(m).len()),
        ),
{
    lemma_byte_caps();
    match m {
        FieldModel::Byte(x) => {
            lemma_signed_round_trip(x as int, 1);
            lemma_fixed_round_trip(pattern_of(x as int, 1), 1, rest);
        },
        FieldModel::UByte(x) => lemma_fixed_round_trip(x as nat, 1, rest),
        FieldModel::Short(x) => {
            lemma_signed_round_trip(x as int, 2);
            lemma_fixed_round_trip(pattern_of(x as int, 2), 2, rest);
        },
        FieldModel::UShort(x) => lemma_fixed_round_trip(x as nat, 2, rest),
        FieldModel::Int(x) => {
            lemma_signed_round_trip(x as int, 4);
            lemma_fixed_round_trip(pattern_of(x as int, 4), 4, rest);
        },
        FieldModel::Long(x) => {
            lemma_signed_round_trip(x as int, 8);
            lemma_fixed_round_trip(pattern_of(x as int, 8), 8, rest);
        },
        FieldModel::Float(x) => lemma_fixed_round_trip(x as nat, 4, rest),
        FieldModel::Double(x) => lemma_fixed_round_trip(x as nat, 8, rest),
        _ => {},
    }
}

proof fn lemma_bool_round_trip(b: bool, rest: Seq<u8>)
    ensures
        parse_field(FieldKind::Bool, field_bytes(FieldModel::Bool(b)) + rest) == Ok::<
            (FieldModel, nat),
            McError,
        >((FieldModel::Bool(b), 1)),
{
    let u: nat = if b { 1 } else { 0 };
    assert(be_bytes(u, 1) == be_bytes(0, 0).push(u as u8));
    assert(be_bytes(0, 0) == Seq::<u8>::empty());
    assert(field_bytes(FieldModel::Bool(b)) =~= be_bytes(u, 1));
    reveal_with_fuel(byte_cap, 2);
    lemma_fixed_round_trip(u, 1, rest);
}

/// Every writable field value decodes back to itself from its own bytes,
/// whatever follows them (nothing may follow a `Rest` field).
#[verifier::rlimit(100)]
#[verifier::spinoff_prover]
pub proof fn lemma_field_round_trip(m: FieldModel, rest: Seq<u8>)
    requires
        field_ok(m),
        m is Rest ==> rest.len() == 0,
    ensures
        parse_field(kind_of(m), field_bytes(m) + rest) == Ok::<(FieldModel, nat), McError>(
            (m, field_bytes(m).len()),
        ),
{
    lemma_byte_caps();
    match m {
        FieldModel::Bool(b) => lemma_bool_round_trip(b, rest),
        FieldModel::Byte(_) | FieldModel::UByte(_) | FieldModel::Short(_) | FieldModel::UShort(_)
        | FieldModel::Int(_) | FieldModel::Long(_) | FieldModel::Float(_) | FieldModel::Double(
            _,
        ) => lemma_numeric_round_trip(m, rest),
        FieldModel::VarInt(x) => lemma_varint_round_trip(x, rest),
        FieldModel::Str(c) => lemma_str_round_trip(c, rest),
        FieldModel::Bytes(b) => lemma_prefixed_round_trip(b, rest),
        FieldModel::Rest(b) => {
            assert(field_bytes(m) + rest =~= b);
        },
        FieldModel::Position(x, y, z) => {
            lemma_position_round_trip(x, y, z);
            lemma_fixed_round_trip(pack_position(x, y, z), 8, rest);
        },
    }
}

proof fn lemma_varint_prefix_eof(s: Seq<u8>, i: nat, x: nat)
    requires
        i <= 4,
        x < group_cap(i),
        i > 0 ==> x > 0,
        s.len() < i + varint_seq(x).len(),
        forall|j: int| 0 <= j && i + j < s.len() ==> s[i + j] == #[trigger] varint_seq(x)[j],
    ensures
        parse_groups(s, i) == Err::<(int, nat), McError>(McError::UnexpectedEof),
    decreases x,
{
    if i < s.len() {
        assert(s[(i + 0) as int] == varint_seq(x)[0]);
        if x >= 128 {
            let w = x / 128;
            assert(w > 0 && w < group_cap(i + 1));
            assert forall|j: int| 0 <= j && (i + 1) + j < s.len() implies s[(i + 1) + j]
                == #[trigger] varint_seq(w)[j] by {
                assert(varint_seq(x)[1 + j] == varint_seq(w)[j]);
            }
            lemma_varint_prefix_eof(s, i + 1, w);
        }
    }
}

/// A strict prefix of the encoding of a field that is not `Rest` is cut
/// short: decoding it runs out of bytes.
pub proof fn lemma_field_prefix_eof(m: FieldModel, k: nat)
    requires
        field_ok(m),
        !(m is Rest),
        k < field_bytes(m).len(),
    ensures
        parse_field(kind_of(m), field_bytes(m).take(k as int)) == Err::<(FieldModel, nat), McError>(
            McError::UnexpectedEof,
        ),
{
    lemma_byte_caps();
    let p = field_bytes(m).take(k as int);
    match m {
        FieldModel::Bool(b) => {},
        FieldModel::Byte(x) => lemma_be_bytes_len(pattern_of(x as int, 1), 1),
        FieldModel::UByte(x) => lemma_be_bytes_len(x as nat, 1),
        FieldModel::Short(x) => lemma_be_bytes_len(pattern_of(x as int, 2), 2),
        FieldModel::UShort(x) => lemma_be_bytes_len(x as nat, 2),
        FieldModel::Int(x) => lemma_be_bytes_len(pattern_of(x as int, 4), 4),
        FieldModel::Long(x) => lemma_be_bytes_len(pattern_of(x as int, 8), 8),
        FieldModel::Float(x) => lemma_be_bytes_len(x as nat, 4),
        FieldModel::Double(x) => lemma_be_bytes_len(x as nat, 8),
        FieldModel::Position(x, y, z) => lemma_be_bytes_len(pack_position(x, y, z), 8),
        FieldModel::VarInt(x) => {
            lemma_varint_seq_len(u32_of(x));
            lemma_varint_prefix_eof(p, 0, u32_of(x));
        },
        FieldModel::Str(c) => lemma_prefixed_prefix_eof(encode_utf8(c), k),
        FieldModel::Bytes(b) => lemma_prefixed_prefix_eof(b, k),
        FieldModel::Rest(_) => {},
    }
}

proof fn lemma_prefixed_prefix_eof(b: Seq<u8>, k: nat)
    requires
        b.len() <= i32::MAX,
        k < (varint_bytes(b.len() as i32) + b).len(),
    ensures
        parse_prefixed((varint_bytes(b.len() as i32) + b).take(k as int)) == Err::<
            (Seq<u8>, nat),
            McError,
        >(McError::UnexpectedEof),
{
    let len = b.len() as i32;
    let v = varint_bytes(len);
    let p = (v + b).take(k as int);
    lemma_varint_seq_len(u32_of(len));
    if k < v.len() {
        lemma_varint_prefix_eof(p, 0, u32_of(len));
    } else {
        lemma_varint_round_trip(len, p.skip(v.len() as int));
        assert(p =~= v + p.skip(v.len() as int));
    }
}

proof fn lemma_be_canonical(t: Seq<u8>)
    ensures
        be_bytes(be_value(t), t.len()) == t,
    decreases t.len(),
{
    if t.len() > 0 {
        let d = t.drop_last();
        lemma_be_canonical(d);
        let v = be_value(t);
        let w = be_value(d);
        let b = t.last() as int;
        assert(v / 256 == w && v % 256 == b) by (nonlinear_arith)
            requires
                v == w * 256 + b,
                0 <= b < 256,
                w >= 0,
        ;
        assert(be_bytes(v, t.len()) =~= t);
    }
}

proof fn lemma_position_canonical(w: nat)
    requires
        w < 0x1_0000_0000_0000_0000,
    ensures
        unpack_position(w) matches FieldModel::Position(x, y, z) && fits_slice(x as int, 26)
            && fits_slice(y as int, 12) && fits_slice(z as int, 26) && pack_position(x, y, z)
            == w,
{
    let xs = w / 0x40_0000_0000;
    let ys = w % 0x1000;
    let zs = (w / 0x1000) % 0x400_0000;
    assert(xs < 0x400_0000 && w == xs * 0x40_0000_0000 + zs * 0x1000 + ys) by (nonlinear_arith)
        requires
            w < 0x1_0000_0000_0000_0000,
            xs == w / 0x40_0000_0000,
            ys == w % 0x1000,
            zs == (w / 0x1000) % 0x400_0000,
    ;
    lemma_byte_caps();
    lemma_slice_pattern(xs, 0x400_0000);
    lemma_slice_pattern(zs, 0x400_0000);
    lemma_slice_pattern(ys, 0x1000);
    if let FieldModel::Position(x, y, z) = unpack_position(w) {
        assert(pattern_of(x as int, 4) % 0x400_0000 == xs);
        assert(pattern_of(y as int, 4) % 0x1000 == ys);
        assert(pattern_of(z as int, 4) % 0x400_0000 == zs);
    }
}

proof fn lemma_slice_pattern(u: nat, cap: nat)
    requires
        u < cap,
        cap == 0x1000 || cap == 0x400_0000,
    ensures
        ({
            let v: int = if 2 * u >= cap {
                u - cap
            } else {
                u as int
            };
            let p: int = if v >= 0 {
                v
            } else {
                v + 0x1_0000_0000
            };
            p % (cap as int) == u
        }),
{
    if 2 * u >= cap {
        let k: int = if cap == 0x1000 { 0xf_ffff } else { 63 };
        assert(u - cap + 0x1_0000_0000 == u + k * cap);
        assert((u + k * cap) % (cap as int) == u) by (nonlinear_arith)
            requires
                u < cap,
                k >= 0,
                cap > 0,
        ;
    }
}

/// What a successful field decode read is exactly the encoding of the value
/// it gives, and that value can be written; a `Rest` field reads all.
pub proof fn lemma_field_canonical(k: FieldKind, s: Seq<u8>)
    ensures
        parse_field(k, s) matches Ok((m, n)) ==> kind_of(m) == k && field_ok(m) && n <= s.len()
            && s.take(n as int) == field_bytes(m) && (k is Rest ==> n == s.len()),
{
    lemma_byte_caps();
    if let Ok((m, n)) = parse_field(k, s) {
        match k {
            FieldKind::VarInt => {
                lemma_varint_canonical(s);
                lemma_varint_bound(s);
            },
            FieldKind::Str | FieldKind::Bytes => {
                lemma_varint_canonical(s);
                lemma_varint_bound(s);
                if let Ok((len, vn)) = parse_varint(s) {
                    let b = s.subrange(vn as int, vn + len);
                    assert(s.take(n as int) =~= s.take(vn as int) + b);
                    if k is Str {
                        vstd::utf8::decode_utf8_encode_utf8(b);
                    }
                }
            },
            FieldKind::Rest => {
                assert(s.take(n as int) =~= s);
            },
            FieldKind::Position => {
                let t = s.take(8);
                lemma_be_canonical(t);
                lemma_be_value_bound(t);
                lemma_position_canonical(be_value(t));
            },
            FieldKind::Bool => {
                let t = s.take(1);
                lemma_be_canonical(t);
                assert(be_bytes(be_value(t), 1) =~= seq![be_value(t) as u8]) by {
                    reveal_with_fuel(be_bytes, 2);
                }
            },
            _ => {
                let w: nat = match k {
                    FieldKind::Byte | FieldKind::UByte => 1,
                    FieldKind::Short | FieldKind::UShort => 2,
                    FieldKind::Int | FieldKind::Float => 4,
                    _ => 8,
                };
                let t = s.take(w as int);
                lemma_be_canonical(t);
                lemma_be_value_bound(t);
            },
        }
    }
}

} // verus!
