//! The protocol's variable-length integer: a 32-bit two's-complement value
//! written as 1 to 5 little-endian groups of 7 bits, each byte but the last
//! carrying the continuation bit 0x80.
use vstd::prelude::*;

use crate::error::{McError, McResult};

verus! {

/// The unsigned 32-bit pattern of `v`.
pub open spec fn u32_of(v: i32) -> nat {
    if v >= 0 {
        v as nat
    } else {
        (v + 0x1_0000_0000) as nat
    }
}

/// The signed value of a 32-bit pattern.
pub open spec fn i32_of(x: int) -> int {
    if x < 0x8000_0000 {
        x
    } else {
        x - 0x1_0000_0000
    }
}

/// The shortest group encoding of a natural number.
pub open spec fn varint_seq(x: nat) -> Seq<u8>
    decreases x,
{
    if x < 128 {
        seq![x as u8]
    } else {
        seq![(x % 128 + 128) as u8] + varint_seq(x / 128)
    }
}

/// The canonical encoding of a VarInt.
pub open spec fn varint_bytes(v: i32) -> Seq<u8> {
    varint_seq(u32_of(v))
}

/// Reads the groups of a VarInt from index `i` of `s` (`i` groups were read
/// before). `Ok((v, n))`: the groups from `i` on are worth `v`, and the
/// encoding ends before index `n`.
pub open spec fn parse_groups(s: Seq<u8>, i: nat) -> Result<(int, nat), McError>
    decreases 5 - i,
{
    if i >= 5 {
        Err(McError::BadVarInt)
    } else if i >= s.len() {
        Err(McError::UnexpectedEof)
    } else if s[i as int] >= 128 {
        if i >= 4 {
            Err(McError::BadVarInt)
        } else {
            match parse_groups(s, i + 1) {
                Ok((v, n)) => Ok(((s[i as int] - 128) + 128 * v, n)),
                Err(e) => Err(e),
            }
        }
    } else if i > 0 && s[i as int] == 0 {
        Err(McError::BadVarInt)
    } else if i == 4 && s[i as int] > 15 {
        Err(McError::BadVarInt)
    } else {
        Ok((s[i as int] as int, i + 1))
    }
}

/// Decoding a VarInt at the start of `s`: its value and its byte count, or
/// `UnexpectedEof` when `s` ends inside it, or `BadVarInt` when it has more
/// than five bytes or is not the shortest encoding of its value.
pub open spec fn parse_varint(s: Seq<u8>) -> Result<(i32, nat), McError> {
    match parse_groups(s, 0) {
        Ok((v, n)) => Ok((i32_of(v) as i32, n)),
        Err(e) => Err(e),
    }
}

/// The bound on what the groups from `i` on can be worth.
pub open spec fn group_cap(i: nat) -> nat {
    if i == 0 {
        0x1_0000_0000
    } else if i == 1 {
        0x200_0000
    } else if i == 2 {
        0x4_0000
    } else if i == 3 {
        0x800
    } else {
        16
    }
}

proof fn lemma_parse_groups_bound(s: Seq<u8>, i: nat)
    ensures
        parse_groups(s, i) matches Ok((v, n)) ==> 0 <= v < group_cap(i) && i < n <= 5
            && n <= s.len() && (i > 0 ==> v > 0),
    decreases 5 - i,
{
    if i < 5 && i < s.len() && s[i as int] >= 128 && i < 4 {
        lemma_parse_groups_bound(s, i + 1);
    }
}

/// What `parse_groups` read is the shortest encoding of its value.
proof fn lemma_parse_groups_canonical(s: Seq<u8>, i: nat)
    ensures
        parse_groups(s, i) matches Ok((v, n)) ==> s.subrange(i as int, n as int) == varint_seq(
            v as nat,
        ),
    decreases 5 - i,
{
    lemma_parse_groups_bound(s, i);
    if i < 5 && i < s.len() && s[i as int] >= 128 && i < 4 {
        lemma_parse_groups_canonical(s, i + 1);
        lemma_parse_groups_bound(s, i + 1);
        if let Ok((w, n)) = parse_groups(s, i + 1) {
            let b = s[i as int] - 128;
            let v = b + 128 * w;
            assert(v % 128 == b && v / 128 == w) by (nonlinear_arith)
                requires
                    v == b + 128 * w,
                    0 <= b < 128,
                    w > 0,
            ;
            assert(s.subrange(i as int, n as int) =~= seq![s[i as int]] + s.subrange(
                (i + 1) as int,
                n as int,
            ));
        }
    } else if i < 5 && i < s.len() && parse_groups(s, i) is Ok {
        assert(s.subrange(i as int, (i + 1) as int) =~= seq![s[i as int]]);
    }
}

/// Reading the shortest encoding of `x` from index `i` gives `x` back.
proof fn lemma_parse_groups_of_seq(s: Seq<u8>, i: nat, x: nat)
    requires
        i <= 4,
        x < group_cap(i),
        i > 0 ==> x > 0,
        i + varint_seq(x).len() <= s.len(),
        forall|j: int| 0 <= j < varint_seq(x).len() ==> s[i + j] == #[trigger] varint_seq(x)[j],
    ensures
        parse_groups(s, i) == Ok::<(int, nat), McError>((x as int, i + varint_seq(x).len())),
    decreases x,
{
    assert(s[(i + 0) as int] == varint_seq(x)[0]);
    if x >= 128 {
        let w = x / 128;
        assert(w > 0 && w < group_cap(i + 1) && x == x % 128 + 128 * w);
        let tail = varint_seq(w);
        assert forall|j: int| 0 <= j < tail.len() implies s[(i + 1) + j] == #[trigger] tail[j] by {
            assert(varint_seq(x)[1 + j] == tail[j]);
        }
        lemma_parse_groups_of_seq(s, i + 1, w);
    }
}

/// Byte count of the shortest encoding of `x`.
pub open spec fn varint_len(x: nat) -> nat {
    if x < 0x80 {
        1
    } else if x < 0x4000 {
        2
    } else if x < 0x20_0000 {
        3
    } else if x < 0x1000_0000 {
        4
    } else {
        5
    }
}

pub proof fn lemma_varint_seq_len(x: nat)
    requires
        x < 0x1_0000_0000,
    ensures
        varint_seq(x).len() == varint_len(x),
    decreases x,
{
    if x >= 128 {
        lemma_varint_seq_len(x / 128);
        assert(x / 128 < 0x80 <==> x < 0x4000);
        assert(x / 128 < 0x4000 <==> x < 0x20_0000);
        assert(x / 128 < 0x20_0000 <==> x < 0x1000_0000);
    }
}

/// Every VarInt takes 1 to 5 bytes, decodes back to itself whatever follows
/// it, and decoding accepts nothing but these encodings.
pub proof fn lemma_varint_round_trip(v: i32, rest: Seq<u8>)
    ensures
        1 <= varint_bytes(v).len() <= 5,
        parse_varint(varint_bytes(v) + rest) == Ok::<(i32, nat), McError>(
            (v, varint_bytes(v).len()),
        ),
{
    let x = u32_of(v);
    let s = varint_bytes(v) + rest;
    lemma_varint_seq_len(x);
    assert forall|j: int| 0 <= j < varint_seq(x).len() implies s[0 + j] == #[trigger] varint_seq(
        x,
    )[j] by {}
    lemma_parse_groups_of_seq(s, 0, x);
}

/// A successful decode read exactly the canonical encoding of its value.
pub proof fn lemma_varint_canonical(s: Seq<u8>)
    ensures
        parse_varint(s) matches Ok((v, n)) ==> s.subrange(0, n as int) == varint_bytes(v),
{
    lemma_parse_groups_canonical(s, 0);
    lemma_parse_groups_bound(s, 0);
}

/// A decoded VarInt took 1 to 5 bytes of the input.
pub proof fn lemma_varint_bound(s: Seq<u8>)
    ensures
        parse_varint(s) matches Ok((_, n)) ==> 1 <= n <= 5 && n <= s.len(),
{
    lemma_parse_groups_bound(s, 0);
}

/// Reads the groups from index `i` of the VarInt that starts at `pos`.
fn read_groups(buf: &[u8], pos: usize, i: usize) -> (r: McResult<(u64, usize)>)
    requires
        pos <= buf@.len(),
        i <= 4,
    ensures
        match parse_groups(buf@.subrange(pos as int, buf@.len() as int), i as nat) {
            Ok((v, n)) => r == Ok::<(u64, usize), McError>((v as u64, n as usize)),
            Err(e) => r == Err::<(u64, usize), McError>(e),
        },
    decreases 4 - i,
{
    let ghost s = buf@.subrange(pos as int, buf@.len() as int);
    proof {
        lemma_parse_groups_bound(s, i as nat);
    }
    if i >= buf.len() - pos {
        return Err(McError::UnexpectedEof);
    }
    let b = buf[pos + i];
    assert(b == s[i as int]);
    if b >= 128 {
        if i >= 4 {
            return Err(McError::BadVarInt);
        }
        proof {
            lemma_parse_groups_bound(s, (i + 1) as nat);
        }
        match read_groups(buf, pos, i + 1) {
            Ok((w, n)) => Ok(((b - 128) as u64 + 128 * w, n)),
            Err(e) => Err(e),
        }
    } else if i > 0 && b == 0 {
        Err(McError::BadVarInt)
    } else if i == 4 && b > 15 {
        Err(McError::BadVarInt)
    } else {
        Ok((b as u64, i + 1))
    }
}

/// Decodes the VarInt that starts at `pos` of `buf`: its value and the
/// position just after it.
pub fn read_varint(buf: &[u8], pos: usize) -> (r: McResult<(i32, usize)>)
    requires
        pos <= buf@.len(),
    ensures
        match parse_varint(buf@.subrange(pos as int, buf@.len() as int)) {
            Ok((v, n)) => r is Ok && r.unwrap().0 == v && r.unwrap().1 == pos + n,
            Err(e) => r == Err::<(i32, usize), McError>(e),
        },
        r matches Ok((_, p)) ==> pos < p <= buf@.len(),
{
    let ghost s = buf@.subrange(pos as int, buf@.len() as int);
    let _len = buf.len();
    proof {
        lemma_parse_groups_bound(s, 0);
        assert(s.len() == buf@.len() - pos);
    }
    match read_groups(buf, pos, 0) {
        Ok((x, n)) => {
            proof {
                if let Ok((_, nn)) = parse_groups(s, 0) {
                    assert(n == nn);
                }
            }
            let v: i32 = if x < 0x8000_0000 {
                x as i32
            } else {
                (x as i64 - 0x1_0000_0000i64) as i32
            };
            Ok((v, pos + n))
        },
        Err(e) => Err(e),
    }
}

/// The canonical encoding of `value`.
pub fn encode_varint(value: i32) -> (r: Vec<u8>)
    ensures
        r@ == varint_bytes(value),
        1 <= r@.len() <= 5,
{
    let u: u32 = if value >= 0 {
        value as u32
    } else {
        (value as i64 + 0x1_0000_0000i64) as u32
    };
    let mut val: u32 = u;
    let mut bytes: Vec<u8> = Vec::new();
    loop
        invariant_except_break
            bytes@ + varint_seq(val as nat) == varint_seq(u as nat),
        ensures
            bytes@ == varint_seq(u as nat),
        decreases val,
    {
        if val < 128 {
            bytes.push(val as u8);
            break;
        }
        bytes.push((val % 128 + 128) as u8);
        proof {
            assert(varint_seq(val as nat) == seq![(val % 128 + 128) as u8] + varint_seq(
                (val / 128) as nat,
            ));
            assert(bytes@ + varint_seq((val / 128) as nat) =~= (bytes@.drop_last() + seq![
                (val % 128 + 128) as u8,
            ]) + varint_seq((val / 128) as nat));
        }
        val = val / 128;
    }
    proof {
        lemma_varint_seq_len(u as nat);
    }
    bytes
}

/// Byte count of the canonical encoding of `value`.
pub fn varint_size(value: i32) -> (r: usize)
    ensures
        r == varint_bytes(value).len(),
        1 <= r <= 5,
{
    proof {
        lemma_varint_seq_len(u32_of(value));
    }
    let u: u32 = if value >= 0 {
        value as u32
    } else {
        (value as i64 + 0x1_0000_0000i64) as u32
    };
    if u < 0x80 {
        1
    } else if u < 0x4000 {
        2
    } else if u < 0x20_0000 {
        3
    } else if u < 0x1000_0000 {
        4
    } else {
        5
    }
}

/// A VarInt value as a field: the value with its encoding.
#[derive(Debug, Clone)]
pub struct VarIntField {
    value: i32,
    bytes: Vec<u8>,
}

impl VarIntField {
    pub closed spec fn spec_value(&self) -> i32 {
        self.value
    }

    pub closed spec fn wf(&self) -> bool {
        self.bytes@ == varint_bytes(self.value)
    }

    pub fn new(value: i32) -> (r: Self)
        ensures
            r.spec_value() == value,
            r.wf(),
    {
        VarIntField { value, bytes: encode_varint(value) }
    }

    pub fn value(&self) -> (r: i32)
        ensures
            r == self.spec_value(),
    {
        self.value
    }

    /// The encoding, 1 to 5 bytes.
    pub fn bytes(&self) -> (r: &[u8])
        requires
            self.wf(),
        ensures
            r@ == varint_bytes(self.spec_value()),
    {
        self.bytes.as_slice()
    }

    /// Wire size in bytes.
    pub fn size(&self) -> (r: usize)
        requires
            self.wf(),
        ensures
            r == varint_bytes(self.spec_value()).len(),
            1 <= r <= 5,
    {
        proof {
            lemma_varint_seq_len(u32_of(self.value));
        }
        self.bytes.len()
    }

    /// Decodes a VarInt at `pos` of `buf`, with the position after it.
    pub fn read_field(buf: &[u8], pos: usize) -> (r: McResult<(VarIntField, usize)>)
        requires
            pos <= buf@.len(),
        ensures
            match parse_varint(buf@.subrange(pos as int, buf@.len() as int)) {
                Ok((v, n)) => r is Ok && r.unwrap().0.spec_value() == v && r.unwrap().0.wf()
                    && r.unwrap().1 == pos + n,
                Err(e) => r == Err::<(VarIntField, usize), McError>(e),
            },
    {
        let r = read_varint(buf, pos);
        match r {
            Ok((v, p)) => {
                let f = VarIntField::new(v);
                Ok((f, p))
            },
            Err(e) => {
                Err(e)
            },
        }
    }

    /// Appends the encoding to `out`.
    pub fn write_field(&self, out: &mut Vec<u8>)
        requires
            self.wf(),
        ensures
            final(out)@ == old(out)@ + varint_bytes(self.spec_value()),
    {
        out.extend_from_slice(self.bytes.as_slice());
    }
}

/// A VarInt value.
#[derive(Debug, Clone, Copy, PartialEq, Eq, Structural)]
pub struct VarInt(pub i32);

impl VarInt {
    pub fn new(val: i32) -> (r: Self)
        ensures
            r.0 == val,
    {
        VarInt(val)
    }

    pub fn value(&self) -> (r: i32)
        ensures
            r == self.0,
    {
        self.0
    }

    /// Decodes a VarInt at `pos` of `buf`, with the position after it.
    pub fn read(buf: &[u8], pos: usize) -> (r: McResult<(VarInt, usize)>)
        requires
            pos <= buf@.len(),
        ensures
            match parse_varint(buf@.subrange(pos as int, buf@.len() as int)) {
                Ok((v, n)) => r is Ok && r.unwrap().0.0 == v && r.unwrap().1 == pos + n,
                Err(e) => r == Err::<(VarInt, usize), McError>(e),
            },
    {
        match read_varint(buf, pos) {
            Ok((v, p)) => Ok((VarInt(v), p)),
            Err(e) => Err(e),
        }
    }

    /// Appends the canonical encoding to `out`.
    pub fn write(&self, out: &mut Vec<u8>)
        ensures
            final(out)@ == old(out)@ + varint_bytes(self.0),
    {
        let bytes = encode_varint(self.0);
        out.extend_from_slice(bytes.as_slice());
    }
}

} // verus!
