//! Big-endian fixed-width integers, the building block of the numeric fields.
use vstd::prelude::*;

use crate::error::{McError, McResult};

verus! {

/// `256` to the power `n`.
pub open spec fn byte_cap(n: nat) -> nat
    decreases n,
{
    if n == 0 {
        1
    } else {
        256 * byte_cap((n - 1) as nat)
    }
}

/// The `n` low bytes of `x`, most significant first.
pub open spec fn be_bytes(x: nat, n: nat) -> Seq<u8>
    decreases n,
{
    if n == 0 {
        Seq::empty()
    } else {
        be_bytes(x / 256, (n - 1) as nat).push((x % 256) as u8)
    }
}

/// The number that the bytes of `s` write, most significant first.
pub open spec fn be_value(s: Seq<u8>) -> nat
    decreases s.len(),
{
    if s.len() == 0 {
        0
    } else {
        (be_value(s.drop_last()) * 256 + s.last()) as nat
    }
}

/// Signed value of an `n`-byte pattern.
pub open spec fn signed_of(u: nat, n: nat) -> int {
    if 2 * u >= byte_cap(n) {
        u - byte_cap(n)
    } else {
        u as int
    }
}

/// Unsigned `n`-byte pattern of a signed value.
pub open spec fn pattern_of(v: int, n: nat) -> nat {
    if v >= 0 {
        v as nat
    } else {
        (v + byte_cap(n)) as nat
    }
}

pub proof fn lemma_byte_caps()
    ensures
        byte_cap(0) == 1,
        byte_cap(1) == 0x100,
        byte_cap(2) == 0x1_0000,
        byte_cap(4) == 0x1_0000_0000,
        byte_cap(8) == 0x1_0000_0000_0000_0000,
{
    reveal_with_fuel(byte_cap, 9);
}

pub proof fn lemma_be_bytes_len(x: nat, n: nat)
    ensures
        be_bytes(x, n).len() == n,
    decreases n,
{
    if n > 0 {
        lemma_be_bytes_len(x / 256, (n - 1) as nat);
    }
}

/// Reading back `n` written bytes gives the number written.
pub proof fn lemma_be_round_trip(x: nat, n: nat)
    requires
        x < byte_cap(n),
    ensures
        be_value(be_bytes(x, n)) == x,
    decreases n,
{
    if n > 0 {
        let c = byte_cap((n - 1) as nat);
        assert(x / 256 < c) by (nonlinear_arith)
            requires
                x < 256 * c,
        ;
        lemma_be_round_trip(x / 256, (n - 1) as nat);
        let s = be_bytes(x, n);
        assert(s.drop_last() =~= be_bytes(x / 256, (n - 1) as nat));
    }
}

pub proof fn lemma_be_value_bound(s: Seq<u8>)
    ensures
        be_value(s) < byte_cap(s.len()),
    decreases s.len(),
{
    if s.len() > 0 {
        lemma_be_value_bound(s.drop_last());
        let v = be_value(s.drop_last());
        let c = byte_cap(s.drop_last().len());
        let b = s.last();
        assert(v * 256 + b < 256 * c) by (nonlinear_arith)
            requires
                v < c,
                b < 256,
        ;
    }
}

/// Reads the `n`-byte big-endian number at `pos` of `buf`.
pub fn read_be(buf: &[u8], pos: usize, n: usize) -> (r: McResult<(u64, usize)>)
    requires
        pos <= buf@.len(),
        n <= 8,
    ensures
        pos + n > buf@.len() ==> r == Err::<(u64, usize), McError>(McError::UnexpectedEof),
        pos + n <= buf@.len() ==> r is Ok && r.unwrap().0 == be_value(
            buf@.subrange(pos as int, pos + n),
        ) && r.unwrap().1 == pos + n,
        r matches Ok((v, _)) ==> v < byte_cap(n as nat),
{
    if n > buf.len() - pos {
        return Err(McError::UnexpectedEof);
    }
    let mut acc: u64 = 0;
    let mut i: usize = 0;
    while i < n
        invariant
            i <= n <= 8,
            pos + n <= buf@.len() <= usize::MAX,
            acc == be_value(buf@.subrange(pos as int, pos + i)),
            acc < byte_cap(i as nat),
        decreases n - i,
    {
        proof {
            let s = buf@.subrange(pos as int, pos + i + 1);
            assert(s.drop_last() =~= buf@.subrange(pos as int, pos + i));
            lemma_be_value_bound(s);
            reveal_with_fuel(byte_cap, 9);
            assert(byte_cap((i + 1) as nat) <= byte_cap(8)) by {
                lemma_cap_mono((i + 1) as nat, 8);
            }
            lemma_byte_caps();
            assert(acc * 256 + buf@[pos + i] < byte_cap((i + 1) as nat)) by (nonlinear_arith)
                requires
                    acc < byte_cap(i as nat),
                    buf@[pos + i] < 256,
                    byte_cap((i + 1) as nat) == 256 * byte_cap(i as nat),
            ;
        }
        acc = acc * 256 + buf[pos + i] as u64;
        i = i + 1;
    }
    Ok((acc, pos + n))
}

proof fn lemma_cap_mono(a: nat, b: nat)
    requires
        a <= b,
    ensures
        byte_cap(a) <= byte_cap(b),
    decreases b - a,
{
    if a < b {
        lemma_cap_mono(a, (b - 1) as nat);
    }
}

/// Appends the `n` low bytes of `x`, most significant first.
pub fn write_be(x: u64, n: usize, out: &mut Vec<u8>)
    ensures
        final(out)@ == old(out)@ + be_bytes(x as nat, n as nat),
    decreases n,
{
    if n == 0 {
        assert(old(out)@ + be_bytes(x as nat, 0) =~= old(out)@);
        return;
    }
    write_be(x / 256, n - 1, out);
    out.push((x % 256) as u8);
    assert(final(out)@ =~= old(out)@ + be_bytes(x as nat, n as nat));
}

} // verus!
