//! Packet framing and the layout-driven packet codec.
//!
//! A frame is `VarInt(length) | VarInt(packet id) | payload`, where `length`
//! counts the id and the payload and lies in `1..=65535`. A packet's payload
//! is its fields, in the order of its layout, with nothing before, between
//! or after them.
use vstd::prelude::*;

use crate::error::{McError, McResult};
use crate::field::{
    field_bytes, field_ok, kind_of, lemma_field_canonical, lemma_field_prefix_eof, lemma_field_round_trip, parse_field, read_field_value, write_field_value, FieldKind,
    FieldModel, FieldValue,
};
use crate::codec::{lemma_be_bytes_len, lemma_byte_caps, pattern_of};
use crate::field::pack_position;
use crate::varint::{
    encode_varint, lemma_varint_round_trip, lemma_varint_seq_len, parse_varint, read_varint, u32_of,
    varint_bytes,
};

verus! {

pub type PacketId = i32;

/// The largest frame length.
pub const MAX_FRAME_LENGTH: i32 = 65535;

/// One framed, not yet typed, packet: its id and its payload.
#[derive(Debug, Clone)]
pub struct PacketBody {
    pub id: PacketId,
    pub body: Vec<u8>,
}

/// Reads the fields `kinds[i..]` from `pos` of `s`. Running out of bytes
/// inside a field means the payload is shorter than the layout.
pub open spec fn parse_fields(kinds: Seq<FieldKind>, s: Seq<u8>, i: nat, pos: nat) -> Result<
    (Seq<FieldModel>, nat),
    McError,
>
    decreases kinds.len() - i,
{
    if i >= kinds.len() {
        Ok((Seq::empty(), pos))
    } else {
        match parse_field(kinds[i as int], s.subrange(pos as int, s.len() as int)) {
            Err(McError::UnexpectedEof) => Err(
                McError::FullPacketNotRead { length: s.len() as usize, read: pos as usize },
            ),
            Err(e) => Err(e),
            Ok((m, n)) => match parse_fields(kinds, s, i + 1, pos + n) {
                Ok((ms, end)) => Ok((seq![m] + ms, end)),
                Err(e) => Err(e),
            },
        }
    }
}

/// Decoding a whole payload against a layout: every field in order, and
/// then the payload must be used up.
pub open spec fn parse_payload(kinds: Seq<FieldKind>, s: Seq<u8>) -> Result<
    Seq<FieldModel>,
    McError,
> {
    match parse_fields(kinds, s, 0, 0) {
        Ok((ms, end)) => if end == s.len() {
            Ok(ms)
        } else {
            Err(McError::FullPacketNotRead { length: s.len() as usize, read: end as usize })
        },
        Err(e) => Err(e),
    }
}

/// Decoding a packet body as the packet with id `id` and layout `kinds`.
pub open spec fn decode_spec(id: i32, kinds: Seq<FieldKind>, body_id: i32, body: Seq<u8>) -> Result<
    Seq<FieldModel>,
    McError,
> {
    if body_id != id {
        Err(McError::UnexpectedPacket { expected: id, actual: body_id })
    } else {
        parse_payload(kinds, body)
    }
}

/// The bytes of a list of fields, one after the other.
pub open spec fn fields_bytes(ms: Seq<FieldModel>) -> Seq<u8>
    decreases ms.len(),
{
    if ms.len() == 0 {
        Seq::empty()
    } else {
        field_bytes(ms[0]) + fields_bytes(ms.drop_first())
    }
}

pub open spec fn models(vs: Seq<FieldValue>) -> Seq<FieldModel> {
    vs.map_values(|v: FieldValue| v@)
}

fn read_fields(kinds: &Vec<FieldKind>, buf: &[u8], i: usize, pos: usize) -> (r: McResult<
    (Vec<FieldValue>, usize),
>)
    requires
        i <= kinds@.len(),
        pos <= buf@.len(),
    ensures
        match parse_fields(kinds@, buf@, i as nat, pos as nat) {
            Ok((ms, end)) => r is Ok && models(r.unwrap().0@) == ms && r.unwrap().1 == end,
            Err(e) => r == Err::<(Vec<FieldValue>, usize), McError>(e),
        },
        r matches Ok((_, p)) ==> p <= buf@.len(),
    decreases kinds@.len() - i,
{
    if i >= kinds.len() {
        let empty: Vec<FieldValue> = Vec::new();
        assert(models(empty@) =~= Seq::<FieldModel>::empty());
        return Ok((empty, pos));
    }
    match read_field_value(kinds[i], buf, pos) {
        Err(McError::UnexpectedEof) => Err(
            McError::FullPacketNotRead { length: buf.len(), read: pos },
        ),
        Err(e) => Err(e),
        Ok((v, p)) => match read_fields(kinds, buf, i + 1, p) {
            Ok((mut vs, end)) => {
                let ghost tail = vs@;
                vs.insert(0, v);
                assert(models(vs@) =~= seq![vs@[0]@] + models(tail));
                Ok((vs, end))
            },
            Err(e) => Err(e),
        },
    }
}

/// Decodes `body` as the packet with id `id` whose fields are `kinds`.
///
/// Fails with `UnexpectedPacket` when the ids differ, and with
/// `FullPacketNotRead` when the payload is shorter or longer than the
/// fields it holds.
pub fn decode_fields(id: i32, kinds: &Vec<FieldKind>, body: &PacketBody) -> (r: McResult<
    Vec<FieldValue>,
>)
    ensures
        match decode_spec(id, kinds@, body.id, body.body@) {
            Ok(ms) => r is Ok && models(r.unwrap()@) == ms,
            Err(e) => r == Err::<Vec<FieldValue>, McError>(e),
        },
{
    if body.id != id {
        return Err(McError::UnexpectedPacket { expected: id, actual: body.id });
    }
    let buf = body.body.as_slice();
    match read_fields(kinds, buf, 0, 0) {
        Ok((vs, end)) => if end == buf.len() {
            Ok(vs)
        } else {
            Err(McError::FullPacketNotRead { length: buf.len(), read: end })
        },
        Err(e) => Err(e),
    }
}

/// Whether a field value can be written: what `field_ok` says, tested.
pub fn field_writable(v: &FieldValue) -> (r: bool)
    ensures
        r == field_ok(v@),
{
    match v {
        FieldValue::Str(text) => text.as_str().as_bytes().len() <= 0x7fff_ffff,
        FieldValue::Bytes(b) => b.len() <= 0x7fff_ffff,
        FieldValue::Position(x, y, z) => -0x200_0000 <= *x && *x < 0x200_0000 && -0x800 <= *y
            && *y < 0x800 && -0x200_0000 <= *z && *z < 0x200_0000,
        _ => true,
    }
}

/// The payload of a packet: its id, then its fields.
pub open spec fn payload_bytes(id: i32, ms: Seq<FieldModel>) -> Seq<u8> {
    varint_bytes(id) + fields_bytes(ms)
}

/// The frame of a payload: its length as a VarInt, then the payload.
pub open spec fn frame_bytes(payload: Seq<u8>) -> Seq<u8> {
    varint_bytes(payload.len() as i32) + payload
}

/// The frame of the client-bound packet with id `id` and fields `ms`, or
/// `PacketTooLarge` when it cannot be framed.
pub open spec fn frame_of(id: i32, ms: Seq<FieldModel>) -> Result<Seq<u8>, McError> {
    if (forall|i: int| 0 <= i < ms.len() ==> field_ok(#[trigger] ms[i])) && payload_bytes(
        id,
        ms,
    ).len() <= 65535 {
        Ok(frame_bytes(payload_bytes(id, ms)))
    } else {
        Err(McError::PacketTooLarge)
    }
}

/// Encodes a client-bound packet with id `id` and fields `fields` as one
/// frame.
///
/// Fails with `PacketTooLarge` when a field cannot be written or the
/// payload does not fit a frame.
pub fn encode_packet(id: i32, fields: &Vec<FieldValue>) -> (r: McResult<Vec<u8>>)
    ensures
        r is Ok <==> (forall|i: int| 0 <= i < fields@.len() ==> field_ok(#[trigger] fields@[i]@))
            && payload_bytes(id, models(fields@)).len() <= 65535,
        r matches Ok(bytes) ==> bytes@ == frame_bytes(payload_bytes(id, models(fields@))),
        r is Err ==> r == Err::<Vec<u8>, McError>(McError::PacketTooLarge),
{
    let mut payload = encode_varint(id);
    let mut i: usize = 0;
    while i < fields.len()
        invariant
            i <= fields@.len(),
            forall|j: int| 0 <= j < i ==> field_ok(#[trigger] fields@[j]@),
            payload@ == varint_bytes(id) + fields_bytes(models(fields@).take(i as int)),
        decreases fields@.len() - i,
    {
        if !field_writable(&fields[i]) {
            return Err(McError::PacketTooLarge);
        }
        let ghost before = payload@;
        write_field_value(&fields[i], &mut payload);
        proof {
            lemma_fields_bytes_push(models(fields@).take(i as int), fields@[i as int]@);
            assert(models(fields@).take(i + 1) =~= models(fields@).take(i as int).push(
                fields@[i as int]@,
            ));
        }
        i = i + 1;
    }
    assert(models(fields@).take(i as int) =~= models(fields@));
    let len = payload.len();
    if len > 65535 {
        return Err(McError::PacketTooLarge);
    }
    let mut out = encode_varint(len as i32);
    out.extend_from_slice(payload.as_slice());
    Ok(out)
}

proof fn lemma_fields_bytes_push(ms: Seq<FieldModel>, m: FieldModel)
    ensures
        fields_bytes(ms.push(m)) == fields_bytes(ms) + field_bytes(m),
    decreases ms.len(),
{
    if ms.len() == 0 {
        assert(ms.push(m).drop_first() =~= Seq::<FieldModel>::empty());
        assert(ms.push(m)[0] == m);
        assert(fields_bytes(Seq::<FieldModel>::empty()) == Seq::<u8>::empty());
        assert(fields_bytes(ms.push(m)) == field_bytes(m) + Seq::<u8>::empty());
        assert(fields_bytes(ms.push(m)) =~= fields_bytes(ms) + field_bytes(m));
    } else {
        lemma_fields_bytes_push(ms.drop_first(), m);
        assert(ms.push(m).drop_first() =~= ms.drop_first().push(m));
        assert(ms.push(m)[0] == ms[0]);
        assert(fields_bytes(ms.push(m)) == field_bytes(ms[0]) + (fields_bytes(ms.drop_first())
            + field_bytes(m)));
        assert(fields_bytes(ms.push(m)) =~= fields_bytes(ms) + field_bytes(m));
    }
}

/// Whether a frame length is acceptable.
pub open spec fn frame_length_ok(len: i32) -> bool {
    1 <= len <= 65535
}

/// Splits the bytes of one frame (what its length prefix counts) into the
/// packet id and the payload.
pub open spec fn split_frame_spec(frame: Seq<u8>) -> Result<(i32, Seq<u8>), McError> {
    match parse_varint(frame) {
        Err(McError::UnexpectedEof) => Err(McError::MalformedPacket(frame.len() as i32)),
        Err(e) => Err(e),
        Ok((id, k)) => Ok((id, frame.subrange(k as int, frame.len() as int))),
    }
}

/// Reading one packet from the bytes `s` that remain on a stream: the
/// packet id, the payload and the number of bytes taken. The stream ending
/// inside the length prefix is an orderly disconnect.
pub open spec fn read_packet_spec(s: Seq<u8>) -> Result<(i32, Seq<u8>, nat), McError> {
    match parse_varint(s) {
        Err(McError::UnexpectedEof) => Err(McError::PleaseDisconnect),
        Err(e) => Err(e),
        Ok((len, n)) => if !frame_length_ok(len) {
            Err(McError::MalformedPacket(len))
        } else if n + len > s.len() {
            Err(McError::UnexpectedEof)
        } else {
            match split_frame_spec(s.subrange(n as int, n + len)) {
                Ok((id, body)) => Ok((id, body, (n + len) as nat)),
                Err(e) => Err(e),
            }
        },
    }
}

/// Checks a frame length read from the length prefix.
pub fn check_frame_length(len: i32) -> (r: McResult<usize>)
    ensures
        frame_length_ok(len) ==> r == Ok::<usize, McError>(len as usize),
        !frame_length_ok(len) ==> r == Err::<usize, McError>(McError::MalformedPacket(len)),
{
    if len < 1 || len > MAX_FRAME_LENGTH {
        Err(McError::MalformedPacket(len))
    } else {
        Ok(len as usize)
    }
}

/// Splits the bytes of one frame into its packet id and payload.
pub fn split_frame(frame: &[u8]) -> (r: McResult<PacketBody>)
    requires
        frame@.len() <= 65535,
    ensures
        match split_frame_spec(frame@) {
            Ok((id, body)) => r is Ok && r.unwrap().id == id && r.unwrap().body@ == body,
            Err(e) => r == Err::<PacketBody, McError>(e),
        },
{
    assert(frame@.subrange(0, frame@.len() as int) =~= frame@);
    match read_varint(frame, 0) {
        Err(McError::UnexpectedEof) => Err(McError::MalformedPacket(frame.len() as i32)),
        Err(e) => Err(e),
        Ok((id, k)) => {
            let body = crate::field::copy_range(frame, k, frame.len());
            Ok(PacketBody { id, body })
        },
    }
}

/// Reads one packet from the start of `stream`, the bytes that remain on a
/// stream: the packet and the number of bytes it took.
pub fn read_packet(stream: &[u8]) -> (r: McResult<(PacketBody, usize)>)
    ensures
        match read_packet_spec(stream@) {
            Ok((id, body, n)) => r is Ok && r.unwrap().0.id == id && r.unwrap().0.body@ == body
                && r.unwrap().1 == n,
            Err(e) => r == Err::<(PacketBody, usize), McError>(e),
        },
{
    assert(stream@.subrange(0, stream@.len() as int) =~= stream@);
    let (len, n) = match read_varint(stream, 0) {
        Err(McError::UnexpectedEof) => return Err(McError::PleaseDisconnect),
        Err(e) => return Err(e),
        Ok(x) => x,
    };
    let frame_len = match check_frame_length(len) {
        Ok(l) => l,
        Err(e) => return Err(e),
    };
    if frame_len > stream.len() - n {
        return Err(McError::UnexpectedEof);
    }
    let frame = crate::field::copy_range(stream, n, n + frame_len);
    match split_frame(frame.as_slice()) {
        Ok(body) => Ok((body, n + frame_len)),
        Err(e) => Err(e),
    }
}

proof fn lemma_parse_field_kind(k: FieldKind, s: Seq<u8>)
    ensures
        parse_field(k, s) matches Ok((m, _)) ==> kind_of(m) == k,
{
}

proof fn lemma_parse_fields_kinds(kinds: Seq<FieldKind>, s: Seq<u8>, i: nat, pos: nat)
    requires
        i <= kinds.len(),
    ensures
        parse_fields(kinds, s, i, pos) matches Ok((ms, _)) ==> ms.len() == kinds.len() - i && (
        forall|j: int| 0 <= j < ms.len() ==> kind_of(#[trigger] ms[j]) == kinds[i + j]),
    decreases kinds.len() - i,
{
    if i < kinds.len() {
        lemma_parse_field_kind(kinds[i as int], s.subrange(pos as int, s.len() as int));
        if let Ok((m, n)) = parse_field(kinds[i as int], s.subrange(pos as int, s.len() as int)) {
            lemma_parse_fields_kinds(kinds, s, i + 1, pos + n);
            if let Ok((ms, _)) = parse_fields(kinds, s, i + 1, pos + n) {
                assert forall|j: int| 0 <= j < ms.len() + 1 implies kind_of(
                    #[trigger] (seq![m] + ms)[j],
                ) == kinds[i + j] by {
                    if j > 0 {
                        assert((seq![m] + ms)[j] == ms[j - 1]);
                    }
                }
            }
        }
    }
}

/// A successful decode gives one value per field of the layout, each of
/// the kind the layout names.
pub proof fn lemma_decode_kinds(id: i32, kinds: Seq<FieldKind>, body_id: i32, body: Seq<u8>)
    ensures
        decode_spec(id, kinds, body_id, body) matches Ok(ms) ==> ms.len() == kinds.len() && (
        forall|j: int| 0 <= j < ms.len() ==> kind_of(#[trigger] ms[j]) == kinds[j]),
{
    lemma_parse_fields_kinds(kinds, body, 0, 0);
}

/// Values that fill a layout: one per field, of its kind, writable, and no
/// field that runs to the end of the payload.
pub open spec fn fills_layout(kinds: Seq<FieldKind>, ms: Seq<FieldModel>) -> bool {
    &&& ms.len() == kinds.len()
    &&& forall|j: int|
        0 <= j < ms.len() ==> kind_of(#[trigger] ms[j]) == kinds[j] && field_ok(ms[j]) && !(
        kinds[j] is Rest)
}

proof fn lemma_fields_bytes_split(ms: Seq<FieldModel>, i: int)
    requires
        0 <= i <= ms.len(),
    ensures
        fields_bytes(ms) == fields_bytes(ms.take(i)) + fields_bytes(ms.skip(i)),
    decreases i,
{
    if i == 0 {
        assert(ms.take(0) =~= Seq::<FieldModel>::empty());
        assert(ms.skip(0) =~= ms);
        assert(fields_bytes(Seq::<FieldModel>::empty()) == Seq::<u8>::empty());
        assert(fields_bytes(ms) =~= Seq::<u8>::empty() + fields_bytes(ms));
    } else {
        lemma_fields_bytes_split(ms, i - 1);
        lemma_fields_bytes_push(ms.take(i - 1), ms[i - 1]);
        assert(ms.take(i - 1).push(ms[i - 1]) =~= ms.take(i));
        let tail = ms.skip(i - 1);
        assert(tail[0] == ms[i - 1]);
        assert(tail.drop_first() =~= ms.skip(i));
        assert(fields_bytes(tail) == field_bytes(ms[i - 1]) + fields_bytes(ms.skip(i)));
        assert(fields_bytes(ms) =~= fields_bytes(ms.take(i)) + fields_bytes(ms.skip(i)));
    }
}

proof fn lemma_parse_fields_exact(kinds: Seq<FieldKind>, ms: Seq<FieldModel>, extra: Seq<u8>, i: int)
    requires
        fills_layout(kinds, ms),
        0 <= i <= ms.len(),
    ensures
        parse_fields(
            kinds,
            fields_bytes(ms) + extra,
            i as nat,
            fields_bytes(ms.take(i)).len(),
        ) == Ok::<(Seq<FieldModel>, nat), McError>((ms.skip(i), fields_bytes(ms).len())),
    decreases ms.len() - i,
{
    let s = fields_bytes(ms) + extra;
    lemma_fields_bytes_split(ms, i);
    if i == ms.len() {
        assert(ms.take(i) =~= ms);
        assert(ms.skip(i) =~= Seq::<FieldModel>::empty());
    } else {
        let off = fields_bytes(ms.take(i)).len();
        let tail = ms.skip(i);
        assert(tail[0] == ms[i]);
        assert(tail.drop_first() =~= ms.skip(i + 1));
        let rest = fields_bytes(ms.skip(i + 1)) + extra;
        assert(s.subrange(off as int, s.len() as int) =~= field_bytes(ms[i]) + rest);
        lemma_field_round_trip(ms[i], rest);
        lemma_fields_bytes_split(ms, i + 1);
        assert(fields_bytes(ms.take(i + 1)).len() == off + field_bytes(ms[i]).len());
        lemma_parse_fields_exact(kinds, ms, extra, i + 1);
        assert(seq![ms[i]] + ms.skip(i + 1) =~= ms.skip(i));
    }
}

proof fn lemma_parse_fields_truncated(kinds: Seq<FieldKind>, ms: Seq<FieldModel>, k: nat, i: int)
    requires
        fills_layout(kinds, ms),
        0 <= i < ms.len(),
        fields_bytes(ms.take(i)).len() <= k < fields_bytes(ms).len(),
    ensures
        parse_fields(
            kinds,
            fields_bytes(ms).take(k as int),
            i as nat,
            fields_bytes(ms.take(i)).len(),
        ) matches Err(McError::FullPacketNotRead { length, .. }) && length == k as usize,
    decreases ms.len() - i,
{
    let s = fields_bytes(ms).take(k as int);
    let off = fields_bytes(ms.take(i)).len();
    lemma_fields_bytes_split(ms, i);
    lemma_fields_bytes_split(ms, i + 1);
    let tail = ms.skip(i);
    assert(tail[0] == ms[i]);
    assert(tail.drop_first() =~= ms.skip(i + 1));
    let flen = field_bytes(ms[i]).len();
    assert(fields_bytes(ms.take(i + 1)).len() == off + flen);
    if off + flen <= k {
        let rest = fields_bytes(ms.skip(i + 1)).take(k - off - flen);
        assert(s.subrange(off as int, s.len() as int) =~= field_bytes(ms[i]) + rest);
        lemma_field_round_trip(ms[i], rest);
        if i + 1 == ms.len() {
            assert(ms.take(i + 1) =~= ms);
        }
        lemma_parse_fields_truncated(kinds, ms, k, i + 1);
    } else {
        assert(s.subrange(off as int, s.len() as int) =~= field_bytes(ms[i]).take(k - off));
        lemma_field_prefix_eof(ms[i], (k - off) as nat);
    }
}

/// A payload is decoded exactly against its layout: the bytes of values
/// that fill the layout decode to those values; with bytes left over, or
/// with the bytes cut short, decoding fails with `FullPacketNotRead` and
/// never yields part of the packet.
pub proof fn lemma_payload_integrity(kinds: Seq<FieldKind>, ms: Seq<FieldModel>, extra: Seq<u8>, k: nat)
    requires
        fills_layout(kinds, ms),
    ensures
        parse_payload(kinds, fields_bytes(ms)) == Ok::<Seq<FieldModel>, McError>(ms),
        extra.len() > 0 ==> parse_payload(kinds, fields_bytes(ms) + extra) == Err::<
            Seq<FieldModel>,
            McError,
        >(
            McError::FullPacketNotRead {
                length: (fields_bytes(ms) + extra).len() as usize,
                read: fields_bytes(ms).len() as usize,
            },
        ),
        k < fields_bytes(ms).len() ==> (parse_payload(kinds, fields_bytes(ms).take(k as int)) matches Err(
            McError::FullPacketNotRead { length, .. },
        ) && length == k as usize),
{
    assert(ms.take(0) =~= Seq::<FieldModel>::empty());
    assert(ms.skip(0) =~= ms);
    assert(fields_bytes(Seq::<FieldModel>::empty()) == Seq::<u8>::empty());
    lemma_parse_fields_exact(kinds, ms, Seq::empty(), 0);
    assert(fields_bytes(ms) + Seq::<u8>::empty() =~= fields_bytes(ms));
    lemma_parse_fields_exact(kinds, ms, extra, 0);
    if k < fields_bytes(ms).len() {
        lemma_parse_fields_truncated(kinds, ms, k, 0);
    }
}

proof fn lemma_parse_fields_canonical(kinds: Seq<FieldKind>, s: Seq<u8>, i: nat, pos: nat)
    requires
        i <= kinds.len(),
        pos <= s.len(),
    ensures
        parse_fields(kinds, s, i, pos) matches Ok((ms, end)) ==> pos <= end <= s.len()
            && s.subrange(pos as int, end as int) == fields_bytes(ms) && forall|j: int|
            0 <= j < ms.len() ==> field_ok(#[trigger] ms[j]),
    decreases kinds.len() - i,
{
    if i < kinds.len() {
        let rest = s.subrange(pos as int, s.len() as int);
        lemma_field_canonical(kinds[i as int], rest);
        if let Ok((m, n)) = parse_field(kinds[i as int], rest) {
            lemma_parse_fields_canonical(kinds, s, i + 1, pos + n);
            if let Ok((ms, end)) = parse_fields(kinds, s, i + 1, pos + n) {
                let all = seq![m] + ms;
                assert(all[0] == m);
                assert(all.drop_first() =~= ms);
                assert(rest.take(n as int) =~= s.subrange(pos as int, (pos + n) as int));
                assert(s.subrange(pos as int, end as int) =~= s.subrange(pos as int, (pos + n) as int)
                    + s.subrange((pos + n) as int, end as int));
                assert forall|j: int| 0 <= j < all.len() implies field_ok(#[trigger] all[j]) by {
                    if j > 0 {
                        assert(all[j] == ms[j - 1]);
                    }
                }
            }
        }
    } else {
        assert(s.subrange(pos as int, pos as int) =~= Seq::<u8>::empty());
        assert(fields_bytes(Seq::<FieldModel>::empty()) == Seq::<u8>::empty());
    }
}

/// A successful decode reads the payload exactly: the payload is the
/// encoding of the values returned, field after field, and each of them
/// can be written back.
pub proof fn lemma_decode_exact(kinds: Seq<FieldKind>, s: Seq<u8>)
    ensures
        parse_payload(kinds, s) matches Ok(ms) ==> fields_bytes(ms) == s && forall|j: int|
            0 <= j < ms.len() ==> field_ok(#[trigger] ms[j]),
{
    lemma_parse_fields_canonical(kinds, s, 0, 0);
    assert(s.subrange(0, s.len() as int) =~= s);
}

/// Framing round trip: the frame of packet `id` with payload `body`,
/// followed by anything, is read back as that packet, taking exactly the
/// frame's bytes.
pub proof fn lemma_frame_round_trip(id: i32, body: Seq<u8>, rest: Seq<u8>)
    requires
        (varint_bytes(id) + body).len() <= 65535,
    ensures
        read_packet_spec(frame_bytes(varint_bytes(id) + body) + rest) == Ok::<
            (i32, Seq<u8>, nat),
            McError,
        >((id, body, frame_bytes(varint_bytes(id) + body).len())),
{
    let payload = varint_bytes(id) + body;
    let len = payload.len() as i32;
    let s = frame_bytes(payload) + rest;
    lemma_varint_round_trip(len, payload + rest);
    assert(s =~= varint_bytes(len) + (payload + rest));
    lemma_varint_round_trip(id, body);
    let n = varint_bytes(len).len();
    assert(s.subrange(n as int, n + len) =~= payload);
    assert(payload.subrange(varint_bytes(id).len() as int, payload.len() as int) =~= body);
}

/// A field that is neither a string, a byte array nor the rest of a
/// payload takes at most 8 bytes.
pub proof fn lemma_small_field_len(m: FieldModel)
    requires
        !(m is Str || m is Bytes || m is Rest),
    ensures
        field_bytes(m).len() <= 8,
{
    lemma_byte_caps();
    match m {
        FieldModel::Byte(x) => lemma_be_bytes_len(pattern_of(x as int, 1), 1),
        FieldModel::UByte(x) => lemma_be_bytes_len(x as nat, 1),
        FieldModel::Short(x) => lemma_be_bytes_len(pattern_of(x as int, 2), 2),
        FieldModel::UShort(x) => lemma_be_bytes_len(x as nat, 2),
        FieldModel::Int(x) => lemma_be_bytes_len(pattern_of(x as int, 4), 4),
        FieldModel::Long(x) => lemma_be_bytes_len(pattern_of(x as int, 8), 8),
        FieldModel::Float(x) => lemma_be_bytes_len(x as nat, 4),
        FieldModel::Double(x) => lemma_be_bytes_len(x as nat, 8),
        FieldModel::Position(x, y, z) => lemma_be_bytes_len(pack_position(x, y, z), 8),
        FieldModel::VarInt(x) => lemma_varint_seq_len(u32_of(x)),
        _ => {},
    }
}

/// Fields of at most `k` bytes each take at most `k` bytes per field.
pub proof fn lemma_fields_bytes_len_bound(ms: Seq<FieldModel>, k: nat)
    requires
        forall|i: int| 0 <= i < ms.len() ==> field_bytes(#[trigger] ms[i]).len() <= k,
    ensures
        fields_bytes(ms).len() <= k * ms.len(),
    decreases ms.len(),
{
    if ms.len() > 0 {
        let t = ms.drop_first();
        assert forall|i: int| 0 <= i < t.len() implies field_bytes(#[trigger] t[i]).len() <= k by {
            assert(t[i] == ms[i + 1]);
        }
        lemma_fields_bytes_len_bound(t, k);
        assert(field_bytes(ms[0]).len() <= k);
        assert(k * ms.len() == k + k * t.len()) by (nonlinear_arith)
            requires
                ms.len() == t.len() + 1,
        ;
    }
}

/// A packet of at most 16 fields of at most 8 bytes each fits one frame.
pub proof fn lemma_frame_fits(id: i32, ms: Seq<FieldModel>)
    requires
        ms.len() <= 16,
        forall|i: int|
            0 <= i < ms.len() ==> field_ok(#[trigger] ms[i]) && field_bytes(ms[i]).len() <= 8
                || !(ms[i] is Str || ms[i] is Bytes || ms[i] is Rest) && field_ok(ms[i]),
    ensures
        frame_of(id, ms) is Ok,
{
    assert forall|i: int| 0 <= i < ms.len() implies field_bytes(#[trigger] ms[i]).len() <= 8 by {
        if !(ms[i] is Str || ms[i] is Bytes || ms[i] is Rest) {
            lemma_small_field_len(ms[i]);
        }
    }
    lemma_fields_bytes_len_bound(ms, 8);
    lemma_varint_seq_len(u32_of(id));
}

} // verus!
