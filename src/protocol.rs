//! The packets of each phase: their ids, their field layouts, and typed
//! views of them. Ids are unique within a phase and direction only.
use vstd::prelude::*;

use crate::error::{McError, McResult};
use crate::field::{copy_range, kind_of, FieldKind, FieldModel, FieldValue};
use crate::packet::{
    decode_fields, decode_spec, encode_packet, frame_of, lemma_decode_kinds, models, PacketBody,
    PacketId,
};

verus! {

/// A block position: x and z fit 26 signed bits, y 12.
#[derive(Debug, Clone, Copy, PartialEq, Eq, Structural)]
pub struct PositionField {
    pub x: i32,
    pub y: i32,
    pub z: i32,
}

impl PositionField {
    pub fn new(x: i32, y: i32, z: i32) -> (r: Self)
        ensures
            r == (PositionField { x, y, z }),
    {
        PositionField { x, y, z }
    }
}

fn copy_bytes(v: &Vec<u8>) -> (r: Vec<u8>)
    ensures
        r@ == v@,
{
    let r = copy_range(v.as_slice(), 0, v.len());
    assert(v@.subrange(0, v@.len() as int) =~= v@);
    r
}

fn as_varint(v: &FieldValue) -> (r: i32)
    requires
        v@ is VarInt,
    ensures
        v@ == FieldModel::VarInt(r),
{
    match v {
        FieldValue::VarInt(x) => *x,
        _ => 0,
    }
}

fn as_int(v: &FieldValue) -> (r: i32)
    requires
        v@ is Int,
    ensures
        v@ == FieldModel::Int(r),
{
    match v {
        FieldValue::Int(x) => *x,
        _ => 0,
    }
}

fn as_long(v: &FieldValue) -> (r: i64)
    requires
        v@ is Long,
    ensures
        v@ == FieldModel::Long(r),
{
    match v {
        FieldValue::Long(x) => *x,
        _ => 0,
    }
}

fn as_ushort(v: &FieldValue) -> (r: u16)
    requires
        v@ is UShort,
    ensures
        v@ == FieldModel::UShort(r),
{
    match v {
        FieldValue::UShort(x) => *x,
        _ => 0,
    }
}

fn as_byte(v: &FieldValue) -> (r: i8)
    requires
        v@ is Byte,
    ensures
        v@ == FieldModel::Byte(r),
{
    match v {
        FieldValue::Byte(x) => *x,
        _ => 0,
    }
}

fn as_ubyte(v: &FieldValue) -> (r: u8)
    requires
        v@ is UByte,
    ensures
        v@ == FieldModel::UByte(r),
{
    match v {
        FieldValue::UByte(x) => *x,
        _ => 0,
    }
}

fn as_bool(v: &FieldValue) -> (r: bool)
    requires
        v@ is Bool,
    ensures
        v@ == FieldModel::Bool(r),
{
    match v {
        FieldValue::Bool(x) => *x,
        _ => false,
    }
}

fn as_float(v: &FieldValue) -> (r: u32)
    requires
        v@ is Float,
    ensures
        v@ == FieldModel::Float(r),
{
    match v {
        FieldValue::Float(x) => *x,
        _ => 0,
    }
}

fn as_double(v: &FieldValue) -> (r: u64)
    requires
        v@ is Double,
    ensures
        v@ == FieldModel::Double(r),
{
    match v {
        FieldValue::Double(x) => *x,
        _ => 0,
    }
}

fn as_str(v: &FieldValue) -> (r: String)
    requires
        v@ is Str,
    ensures
        v@ == FieldModel::Str(r@),
{
    match v {
        FieldValue::Str(s) => s.clone(),
        _ => String::new(),
    }
}

fn as_bytes(v: &FieldValue) -> (r: Vec<u8>)
    requires
        v@ is Bytes,
    ensures
        v@ == FieldModel::Bytes(r@),
{
    match v {
        FieldValue::Bytes(b) => copy_bytes(b),
        _ => Vec::new(),
    }
}

fn as_rest(v: &FieldValue) -> (r: Vec<u8>)
    requires
        v@ is Rest,
    ensures
        v@ == FieldModel::Rest(r@),
{
    match v {
        FieldValue::Rest(b) => copy_bytes(b),
        _ => Vec::new(),
    }
}

fn as_position(v: &FieldValue) -> (r: PositionField)
    requires
        v@ is Position,
    ensures
        v@ == FieldModel::Position(r.x, r.y, r.z),
{
    match v {
        FieldValue::Position(x, y, z) => PositionField { x: *x, y: *y, z: *z },
        _ => PositionField { x: 0, y: 0, z: 0 },
    }
}

// Server-bound packets.

/// The first packet of every connection: the client's protocol version, the address and port it dialled, and the phase it asks for (1 status, 2 login).
#[derive(Debug, Clone)]
pub struct Handshake {
    pub protocol_version: i32,
    pub server_address: String,
    pub server_port: u16,
    pub next_state: i32,
}

impl Handshake {
    pub const ID: PacketId = 0x00;

    pub open spec fn layout() -> Seq<FieldKind> {
        seq![FieldKind::VarInt, FieldKind::Str, FieldKind::UShort, FieldKind::VarInt]
    }

    pub open spec fn model(&self) -> Seq<FieldModel> {
        seq![FieldModel::VarInt(self.protocol_version), FieldModel::Str(self.server_address@), FieldModel::UShort(self.server_port), FieldModel::VarInt(self.next_state)]
    }

    pub fn kinds() -> (r: Vec<FieldKind>)
        ensures
            r@ == Self::layout(),
    {
        let mut kinds: Vec<FieldKind> = Vec::new();
        kinds.push(FieldKind::VarInt);
        kinds.push(FieldKind::Str);
        kinds.push(FieldKind::UShort);
        kinds.push(FieldKind::VarInt);
        assert(kinds@ =~= Self::layout());
        kinds
    }

    /// Decodes this packet from a frame body.
    pub fn read_packet(body: &PacketBody) -> (r: McResult<Self>)
        ensures
            match decode_spec(Self::ID, Self::layout(), body.id, body.body@) {
                Ok(ms) => r is Ok && r.unwrap().model() == ms,
                Err(e) => r == Err::<Handshake, McError>(e),
            },
    {
        let kinds = Self::kinds();
        let vs = match decode_fields(Self::ID, &kinds, body) {
            Ok(vs) => vs,
            Err(e) => return Err(e),
        };
        proof {
            lemma_decode_kinds(Self::ID, kinds@, body.id, body.body@);
            assert(kind_of(models(vs@)[0]) == FieldKind::VarInt);
            assert(models(vs@)[0] == vs@[0]@);
            assert(kind_of(models(vs@)[1]) == FieldKind::Str);
            assert(models(vs@)[1] == vs@[1]@);
            assert(kind_of(models(vs@)[2]) == FieldKind::UShort);
            assert(models(vs@)[2] == vs@[2]@);
            assert(kind_of(models(vs@)[3]) == FieldKind::VarInt);
            assert(models(vs@)[3] == vs@[3]@);
        }
        let packet = Handshake {
            protocol_version: as_varint(&vs[0]),
            server_address: as_str(&vs[1]),
            server_port: as_ushort(&vs[2]),
            next_state: as_varint(&vs[3]),
        };
        assert(packet.model() =~= models(vs@));
        Ok(packet)
    }
}

/// Status phase: the request for the server status.
#[derive(Debug, Clone)]
pub struct Empty {
}

impl Empty {
    pub const ID: PacketId = 0x00;

    pub open spec fn layout() -> Seq<FieldKind> {
        Seq::empty()
    }

    pub open spec fn model(&self) -> Seq<FieldModel> {
        Seq::empty()
    }

    pub fn kinds() -> (r: Vec<FieldKind>)
        ensures
            r@ == Self::layout(),
    {
        let mut kinds: Vec<FieldKind> = Vec::new();
        assert(kinds@ =~= Self::layout());
        kinds
    }

    /// Decodes this packet from a frame body.
    pub fn read_packet(body: &PacketBody) -> (r: McResult<Self>)
        ensures
            match decode_spec(Self::ID, Self::layout(), body.id, body.body@) {
                Ok(ms) => r is Ok && r.unwrap().model() == ms,
                Err(e) => r == Err::<Empty, McError>(e),
            },
    {
        let kinds = Self::kinds();
        let vs = match decode_fields(Self::ID, &kinds, body) {
            Ok(vs) => vs,
            Err(e) => return Err(e),
        };
        proof {
            lemma_decode_kinds(Self::ID, kinds@, body.id, body.body@);
        }
        let packet = Empty {
        };
        assert(packet.model() =~= models(vs@));
        Ok(packet)
    }
}

/// Status phase: a ping whose payload the server echoes.
#[derive(Debug, Clone)]
pub struct Ping {
    pub payload: i64,
}

impl Ping {
    pub const ID: PacketId = 0x01;

    pub open spec fn layout() -> Seq<FieldKind> {
        seq![FieldKind::Long]
    }

    pub open spec fn model(&self) -> Seq<FieldModel> {
        seq![FieldModel::Long(self.payload)]
    }

    pub fn kinds() -> (r: Vec<FieldKind>)
        ensures
            r@ == Self::layout(),
    {
        let mut kinds: Vec<FieldKind> = Vec::new();
        kinds.push(FieldKind::Long);
        assert(kinds@ =~= Self::layout());
        kinds
    }

    /// Decodes this packet from a frame body.
    pub fn read_packet(body: &PacketBody) -> (r: McResult<Self>)
        ensures
            match decode_spec(Self::ID, Self::layout(), body.id, body.body@) {
                Ok(ms) => r is Ok && r.unwrap().model() == ms,
                Err(e) => r == Err::<Ping, McError>(e),
            },
    {
        let kinds = Self::kinds();
        let vs = match decode_fields(Self::ID, &kinds, body) {
            Ok(vs) => vs,
            Err(e) => return Err(e),
        };
        proof {
            lemma_decode_kinds(Self::ID, kinds@, body.id, body.body@);
            assert(kind_of(models(vs@)[0]) == FieldKind::Long);
            assert(models(vs@)[0] == vs@[0]@);
        }
        let packet = Ping {
            payload: as_long(&vs[0]),
        };
        assert(packet.model() =~= models(vs@));
        Ok(packet)
    }
}

/// Login phase: the name the player logs in with.
#[derive(Debug, Clone)]
pub struct LoginStart {
    pub name: String,
}

impl LoginStart {
    pub const ID: PacketId = 0x00;

    pub open spec fn layout() -> Seq<FieldKind> {
        seq![FieldKind::Str]
    }

    pub open spec fn model(&self) -> Seq<FieldModel> {
        seq![FieldModel::Str(self.name@)]
    }

    pub fn kinds() -> (r: Vec<FieldKind>)
        ensures
            r@ == Self::layout(),
    {
        let mut kinds: Vec<FieldKind> = Vec::new();
        kinds.push(FieldKind::Str);
        assert(kinds@ =~= Self::layout());
        kinds
    }

    /// Decodes this packet from a frame body.
    pub fn read_packet(body: &PacketBody) -> (r: McResult<Self>)
        ensures
            match decode_spec(Self::ID, Self::layout(), body.id, body.body@) {
                Ok(ms) => r is Ok && r.unwrap().model() == ms,
                Err(e) => r == Err::<LoginStart, McError>(e),
            },
    {
        let kinds = Self::kinds();
        let vs = match decode_fields(Self::ID, &kinds, body) {
            Ok(vs) => vs,
            Err(e) => return Err(e),
        };
        proof {
            lemma_decode_kinds(Self::ID, kinds@, body.id, body.body@);
            assert(kind_of(models(vs@)[0]) == FieldKind::Str);
            assert(models(vs@)[0] == vs@[0]@);
        }
        let packet = LoginStart {
            name: as_str(&vs[0]),
        };
        assert(packet.model() =~= models(vs@));
        Ok(packet)
    }
}

/// Login phase: the shared secret and the verify token, both encrypted with the server's public key.
#[derive(Debug, Clone)]
pub struct EncryptionResponse {
    pub shared_secret: Vec<u8>,
    pub verify_token: Vec<u8>,
}

impl EncryptionResponse {
    pub const ID: PacketId = 0x01;

    pub open spec fn layout() -> Seq<FieldKind> {
        seq![FieldKind::Bytes, FieldKind::Bytes]
    }

    pub open spec fn model(&self) -> Seq<FieldModel> {
        seq![FieldModel::Bytes(self.shared_secret@), FieldModel::Bytes(self.verify_token@)]
    }

    pub fn kinds() -> (r: Vec<FieldKind>)
        ensures
            r@ == Self::layout(),
    {
        let mut kinds: Vec<FieldKind> = Vec::new();
        kinds.push(FieldKind::Bytes);
        kinds.push(FieldKind::Bytes);
        assert(kinds@ =~= Self::layout());
        kinds
    }

    /// Decodes this packet from a frame body.
    pub fn read_packet(body: &PacketBody) -> (r: McResult<Self>)
        ensures
            match decode_spec(Self::ID, Self::layout(), body.id, body.body@) {
                Ok(ms) => r is Ok && r.unwrap().model() == ms,
                Err(e) => r == Err::<EncryptionResponse, McError>(e),
            },
    {
        let kinds = Self::kinds();
        let vs = match decode_fields(Self::ID, &kinds, body) {
            Ok(vs) => vs,
            Err(e) => return Err(e),
        };
        proof {
            lemma_decode_kinds(Self::ID, kinds@, body.id, body.body@);
            assert(kind_of(models(vs@)[0]) == FieldKind::Bytes);
            assert(models(vs@)[0] == vs@[0]@);
            assert(kind_of(models(vs@)[1]) == FieldKind::Bytes);
            assert(models(vs@)[1] == vs@[1]@);
        }
        let packet = EncryptionResponse {
            shared_secret: as_bytes(&vs[0]),
            verify_token: as_bytes(&vs[1]),
        };
        assert(packet.model() =~= models(vs@));
        Ok(packet)
    }
}

/// Play phase: the client confirms the teleport with this id.
#[derive(Debug, Clone)]
pub struct TeleportConfirm {
    pub teleport_id: i32,
}

impl TeleportConfirm {
    pub const ID: PacketId = 0x00;

    pub open spec fn layout() -> Seq<FieldKind> {
        seq![FieldKind::VarInt]
    }

    pub open spec fn model(&self) -> Seq<FieldModel> {
        seq![FieldModel::VarInt(self.teleport_id)]
    }

    pub fn kinds() -> (r: Vec<FieldKind>)
        ensures
            r@ == Self::layout(),
    {
        let mut kinds: Vec<FieldKind> = Vec::new();
        kinds.push(FieldKind::VarInt);
        assert(kinds@ =~= Self::layout());
        kinds
    }

    /// Decodes this packet from a frame body.
    pub fn read_packet(body: &PacketBody) -> (r: McResult<Self>)
        ensures
            match decode_spec(Self::ID, Self::layout(), body.id, body.body@) {
                Ok(ms) => r is Ok && r.unwrap().model() == ms,
                Err(e) => r == Err::<TeleportConfirm, McError>(e),
            },
    {
        let kinds = Self::kinds();
        let vs = match decode_fields(Self::ID, &kinds, body) {
            Ok(vs) => vs,
            Err(e) => return Err(e),
        };
        proof {
            lemma_decode_kinds(Self::ID, kinds@, body.id, body.body@);
            assert(kind_of(models(vs@)[0]) == FieldKind::VarInt);
            assert(models(vs@)[0] == vs@[0]@);
        }
        let packet = TeleportConfirm {
            teleport_id: as_varint(&vs[0]),
        };
        assert(packet.model() =~= models(vs@));
        Ok(packet)
    }
}

/// Play phase: the client's settings.
#[derive(Debug, Clone)]
pub struct ClientSettings {
    pub locale: String,
    pub view_distance: i8,
    pub chat_mode: i32,
    pub chat_colors: bool,
    pub displayed_skin_parts: u8,
    pub main_hand: i32,
}

impl ClientSettings {
    pub const ID: PacketId = 0x05;

    pub open spec fn layout() -> Seq<FieldKind> {
        seq![FieldKind::Str, FieldKind::Byte, FieldKind::VarInt, FieldKind::Bool, FieldKind::UByte, FieldKind::VarInt]
    }

    pub open spec fn model(&self) -> Seq<FieldModel> {
        seq![FieldModel::Str(self.locale@), FieldModel::Byte(self.view_distance), FieldModel::VarInt(self.chat_mode), FieldModel::Bool(self.chat_colors), FieldModel::UByte(self.displayed_skin_parts), FieldModel::VarInt(self.main_hand)]
    }

    pub fn kinds() -> (r: Vec<FieldKind>)
        ensures
            r@ == Self::layout(),
    {
        let mut kinds: Vec<FieldKind> = Vec::new();
        kinds.push(FieldKind::Str);
        kinds.push(FieldKind::Byte);
        kinds.push(FieldKind::VarInt);
        kinds.push(FieldKind::Bool);
        kinds.push(FieldKind::UByte);
        kinds.push(FieldKind::VarInt);
        assert(kinds@ =~= Self::layout());
        kinds
    }

    /// Decodes this packet from a frame body.
    pub fn read_packet(body: &PacketBody) -> (r: McResult<Self>)
        ensures
            match decode_spec(Self::ID, Self::layout(), body.id, body.body@) {
                Ok(ms) => r is Ok && r.unwrap().model() == ms,
                Err(e) => r == Err::<ClientSettings, McError>(e),
            },
    {
        let kinds = Self::kinds();
        let vs = match decode_fields(Self::ID, &kinds, body) {
            Ok(vs) => vs,
            Err(e) => return Err(e),
        };
        proof {
            lemma_decode_kinds(Self::ID, kinds@, body.id, body.body@);
            assert(kind_of(models(vs@)[0]) == FieldKind::Str);
            assert(models(vs@)[0] == vs@[0]@);
            assert(kind_of(models(vs@)[1]) == FieldKind::Byte);
            assert(models(vs@)[1] == vs@[1]@);
            assert(kind_of(models(vs@)[2]) == FieldKind::VarInt);
            assert(models(vs@)[2] == vs@[2]@);
            assert(kind_of(models(vs@)[3]) == FieldKind::Bool);
            assert(models(vs@)[3] == vs@[3]@);
            assert(kind_of(models(vs@)[4]) == FieldKind::UByte);
            assert(models(vs@)[4] == vs@[4]@);
            assert(kind_of(models(vs@)[5]) == FieldKind::VarInt);
            assert(models(vs@)[5] == vs@[5]@);
        }
        let packet = ClientSettings {
            locale: as_str(&vs[0]),
            view_distance: as_byte(&vs[1]),
            chat_mode: as_varint(&vs[2]),
            chat_colors: as_bool(&vs[3]),
            displayed_skin_parts: as_ubyte(&vs[4]),
            main_hand: as_varint(&vs[5]),
        };
        assert(packet.model() =~= models(vs@));
        Ok(packet)
    }
}

/// Play phase: a message on a plugin channel; the data runs to the end of the packet.
#[derive(Debug, Clone)]
pub struct PluginMessage {
    pub channel: String,
    pub data: Vec<u8>,
}

impl PluginMessage {
    pub const ID: PacketId = 0x0B;

    pub open spec fn layout() -> Seq<FieldKind> {
        seq![FieldKind::Str, FieldKind::Rest]
    }

    pub open spec fn model(&self) -> Seq<FieldModel> {
        seq![FieldModel::Str(self.channel@), FieldModel::Rest(self.data@)]
    }

    pub fn kinds() -> (r: Vec<FieldKind>)
        ensures
            r@ == Self::layout(),
    {
        let mut kinds: Vec<FieldKind> = Vec::new();
        kinds.push(FieldKind::Str);
        kinds.push(FieldKind::Rest);
        assert(kinds@ =~= Self::layout());
        kinds
    }

    /// Decodes this packet from a frame body.
    pub fn read_packet(body: &PacketBody) -> (r: McResult<Self>)
        ensures
            match decode_spec(Self::ID, Self::layout(), body.id, body.body@) {
                Ok(ms) => r is Ok && r.unwrap().model() == ms,
                Err(e) => r == Err::<PluginMessage, McError>(e),
            },
    {
        let kinds = Self::kinds();
        let vs = match decode_fields(Self::ID, &kinds, body) {
            Ok(vs) => vs,
            Err(e) => return Err(e),
        };
        proof {
            lemma_decode_kinds(Self::ID, kinds@, body.id, body.body@);
            assert(kind_of(models(vs@)[0]) == FieldKind::Str);
            assert(models(vs@)[0] == vs@[0]@);
            assert(kind_of(models(vs@)[1]) == FieldKind::Rest);
            assert(models(vs@)[1] == vs@[1]@);
        }
        let packet = PluginMessage {
            channel: as_str(&vs[0]),
            data: as_rest(&vs[1]),
        };
        assert(packet.model() =~= models(vs@));
        Ok(packet)
    }
}

/// Play phase: the client's answer to a keep-alive.
#[derive(Debug, Clone)]
pub struct KeepAliveResponse {
    pub keep_alive_id: i64,
}

impl KeepAliveResponse {
    pub const ID: PacketId = 0x0F;

    pub open spec fn layout() -> Seq<FieldKind> {
        seq![FieldKind::Long]
    }

    pub open spec fn model(&self) -> Seq<FieldModel> {
        seq![FieldModel::Long(self.keep_alive_id)]
    }

    pub fn kinds() -> (r: Vec<FieldKind>)
        ensures
            r@ == Self::layout(),
    {
        let mut kinds: Vec<FieldKind> = Vec::new();
        kinds.push(FieldKind::Long);
        assert(kinds@ =~= Self::layout());
        kinds
    }

    /// Decodes this packet from a frame body.
    pub fn read_packet(body: &PacketBody) -> (r: McResult<Self>)
        ensures
            match decode_spec(Self::ID, Self::layout(), body.id, body.body@) {
                Ok(ms) => r is Ok && r.unwrap().model() == ms,
                Err(e) => r == Err::<KeepAliveResponse, McError>(e),
            },
    {
        let kinds = Self::kinds();
        let vs = match decode_fields(Self::ID, &kinds, body) {
            Ok(vs) => vs,
            Err(e) => return Err(e),
        };
        proof {
            lemma_decode_kinds(Self::ID, kinds@, body.id, body.body@);
            assert(kind_of(models(vs@)[0]) == FieldKind::Long);
            assert(models(vs@)[0] == vs@[0]@);
        }
        let packet = KeepAliveResponse {
            keep_alive_id: as_long(&vs[0]),
        };
        assert(packet.model() =~= models(vs@));
        Ok(packet)
    }
}

/// Play phase: the player moved; coordinates and angles as float bit patterns.
#[derive(Debug, Clone)]
pub struct PlayerPositionAndRotation {
    pub x: u64,
    pub feet_y: u64,
    pub z: u64,
    pub yaw: u32,
    pub pitch: u32,
    pub on_ground: bool,
}

impl PlayerPositionAndRotation {
    pub const ID: PacketId = 0x12;

    pub open spec fn layout() -> Seq<FieldKind> {
        seq![FieldKind::Double, FieldKind::Double, FieldKind::Double, FieldKind::Float, FieldKind::Float, FieldKind::Bool]
    }

    pub open spec fn model(&self) -> Seq<FieldModel> {
        seq![FieldModel::Double(self.x), FieldModel::Double(self.feet_y), FieldModel::Double(self.z), FieldModel::Float(self.yaw), FieldModel::Float(self.pitch), FieldModel::Bool(self.on_ground)]
    }

    pub fn kinds() -> (r: Vec<FieldKind>)
        ensures
            r@ == Self::layout(),
    {
        let mut kinds: Vec<FieldKind> = Vec::new();
        kinds.push(FieldKind::Double);
        kinds.push(FieldKind::Double);
        kinds.push(FieldKind::Double);
        kinds.push(FieldKind::Float);
        kinds.push(FieldKind::Float);
        kinds.push(FieldKind::Bool);
        assert(kinds@ =~= Self::layout());
        kinds
    }

    /// Decodes this packet from a frame body.
    pub fn read_packet(body: &PacketBody) -> (r: McResult<Self>)
        ensures
            match decode_spec(Self::ID, Self::layout(), body.id, body.body@) {
                Ok(ms) => r is Ok && r.unwrap().model() == ms,
                Err(e) => r == Err::<PlayerPositionAndRotation, McError>(e),
            },
    {
        let kinds = Self::kinds();
        let vs = match decode_fields(Self::ID, &kinds, body) {
            Ok(vs) => vs,
            Err(e) => return Err(e),
        };
        proof {
            lemma_decode_kinds(Self::ID, kinds@, body.id, body.body@);
            assert(kind_of(models(vs@)[0]) == FieldKind::Double);
            assert(models(vs@)[0] == vs@[0]@);
            assert(kind_of(models(vs@)[1]) == FieldKind::Double);
            assert(models(vs@)[1] == vs@[1]@);
            assert(kind_of(models(vs@)[2]) == FieldKind::Double);
            assert(models(vs@)[2] == vs@[2]@);
            assert(kind_of(models(vs@)[3]) == FieldKind::Float);
            assert(models(vs@)[3] == vs@[3]@);
            assert(kind_of(models(vs@)[4]) == FieldKind::Float);
            assert(models(vs@)[4] == vs@[4]@);
            assert(kind_of(models(vs@)[5]) == FieldKind::Bool);
            assert(models(vs@)[5] == vs@[5]@);
        }
        let packet = PlayerPositionAndRotation {
            x: as_double(&vs[0]),
            feet_y: as_double(&vs[1]),
            z: as_double(&vs[2]),
            yaw: as_float(&vs[3]),
            pitch: as_float(&vs[4]),
            on_ground: as_bool(&vs[5]),
        };
        assert(packet.model() =~= models(vs@));
        Ok(packet)
    }
}

// Client-bound packets.

/// Status phase: the server status as JSON.
#[derive(Debug, Clone)]
pub struct StatusResponse {
    pub json_response: String,
}

impl StatusResponse {
    pub const ID: PacketId = 0x00;

    pub open spec fn layout() -> Seq<FieldKind> {
        seq![FieldKind::Str]
    }

    pub open spec fn model(&self) -> Seq<FieldModel> {
        seq![FieldModel::Str(self.json_response@)]
    }

    pub fn kinds() -> (r: Vec<FieldKind>)
        ensures
            r@ == Self::layout(),
    {
        let mut kinds: Vec<FieldKind> = Vec::new();
        kinds.push(FieldKind::Str);
        assert(kinds@ =~= Self::layout());
        kinds
    }

    /// The field values, in layout order.
    pub fn fields(&self) -> (r: Vec<FieldValue>)
        ensures
            models(r@) == self.model(),
    {
        let mut vs: Vec<FieldValue> = Vec::new();
        vs.push(FieldValue::Str(self.json_response.clone()));
        assert(models(vs@) =~= self.model());
        vs
    }

    /// This packet as one frame.
    pub fn encode(&self) -> (r: McResult<Vec<u8>>)
        ensures
            match frame_of(Self::ID, self.model()) {
                Ok(frame) => r is Ok && r.unwrap()@ == frame,
                Err(e) => r == Err::<Vec<u8>, McError>(e),
            },
    {
        let vs = self.fields();
        encode_packet(Self::ID, &vs)
    }
}

/// Status phase: the answer to a ping, with its payload.
#[derive(Debug, Clone)]
pub struct Pong {
    pub payload: i64,
}

impl Pong {
    pub const ID: PacketId = 0x01;

    pub open spec fn layout() -> Seq<FieldKind> {
        seq![FieldKind::Long]
    }

    pub open spec fn model(&self) -> Seq<FieldModel> {
        seq![FieldModel::Long(self.payload)]
    }

    pub fn kinds() -> (r: Vec<FieldKind>)
        ensures
            r@ == Self::layout(),
    {
        let mut kinds: Vec<FieldKind> = Vec::new();
        kinds.push(FieldKind::Long);
        assert(kinds@ =~= Self::layout());
        kinds
    }

    /// The field values, in layout order.
    pub fn fields(&self) -> (r: Vec<FieldValue>)
        ensures
            models(r@) == self.model(),
    {
        let mut vs: Vec<FieldValue> = Vec::new();
        vs.push(FieldValue::Long(self.payload));
        assert(models(vs@) =~= self.model());
        vs
    }

    /// This packet as one frame.
    pub fn encode(&self) -> (r: McResult<Vec<u8>>)
        ensures
            match frame_of(Self::ID, self.model()) {
                Ok(frame) => r is Ok && r.unwrap()@ == frame,
                Err(e) => r == Err::<Vec<u8>, McError>(e),
            },
    {
        let vs = self.fields();
        encode_packet(Self::ID, &vs)
    }
}

/// Login phase: the server ends the connection, with a chat-JSON reason.
#[derive(Debug, Clone)]
pub struct DisconnectLogin {
    pub reason: String,
}

impl DisconnectLogin {
    pub const ID: PacketId = 0x00;

    pub open spec fn layout() -> Seq<FieldKind> {
        seq![FieldKind::Str]
    }

    pub open spec fn model(&self) -> Seq<FieldModel> {
        seq![FieldModel::Str(self.reason@)]
    }

    pub fn kinds() -> (r: Vec<FieldKind>)
        ensures
            r@ == Self::layout(),
    {
        let mut kinds: Vec<FieldKind> = Vec::new();
        kinds.push(FieldKind::Str);
        assert(kinds@ =~= Self::layout());
        kinds
    }

    /// The field values, in layout order.
    pub fn fields(&self) -> (r: Vec<FieldValue>)
        ensures
            models(r@) == self.model(),
    {
        let mut vs: Vec<FieldValue> = Vec::new();
        vs.push(FieldValue::Str(self.reason.clone()));
        assert(models(vs@) =~= self.model());
        vs
    }

    /// This packet as one frame.
    pub fn encode(&self) -> (r: McResult<Vec<u8>>)
        ensures
            match frame_of(Self::ID, self.model()) {
                Ok(frame) => r is Ok && r.unwrap()@ == frame,
                Err(e) => r == Err::<Vec<u8>, McError>(e),
            },
    {
        let vs = self.fields();
        encode_packet(Self::ID, &vs)
    }
}

/// Login phase: the server's public key and a verify token.
#[derive(Debug, Clone)]
pub struct EncryptionRequest {
    pub server_id: String,
    pub pub_key: Vec<u8>,
    pub verify_token: Vec<u8>,
}

impl EncryptionRequest {
    pub const ID: PacketId = 0x01;

    pub open spec fn layout() -> Seq<FieldKind> {
        seq![FieldKind::Str, FieldKind::Bytes, FieldKind::Bytes]
    }

    pub open spec fn model(&self) -> Seq<FieldModel> {
        seq![FieldModel::Str(self.server_id@), FieldModel::Bytes(self.pub_key@), FieldModel::Bytes(self.verify_token@)]
    }

    pub fn kinds() -> (r: Vec<FieldKind>)
        ensures
            r@ == Self::layout(),
    {
        let mut kinds: Vec<FieldKind> = Vec::new();
        kinds.push(FieldKind::Str);
        kinds.push(FieldKind::Bytes);
        kinds.push(FieldKind::Bytes);
        assert(kinds@ =~= Self::layout());
        kinds
    }

    /// The field values, in layout order.
    pub fn fields(&self) -> (r: Vec<FieldValue>)
        ensures
            models(r@) == self.model(),
    {
        let mut vs: Vec<FieldValue> = Vec::new();
        vs.push(FieldValue::Str(self.server_id.clone()));
        vs.push(FieldValue::Bytes(copy_bytes(&self.pub_key)));
        vs.push(FieldValue::Bytes(copy_bytes(&self.verify_token)));
        assert(models(vs@) =~= self.model());
        vs
    }

    /// This packet as one frame.
    pub fn encode(&self) -> (r: McResult<Vec<u8>>)
        ensures
            match frame_of(Self::ID, self.model()) {
                Ok(frame) => r is Ok && r.unwrap()@ == frame,
                Err(e) => r == Err::<Vec<u8>, McError>(e),
            },
    {
        let vs = self.fields();
        encode_packet(Self::ID, &vs)
    }
}

/// Login phase: the player is in, with their id (hyphenated) and name.
#[derive(Debug, Clone)]
pub struct LoginSuccess {
    pub uuid: String,
    pub username: String,
}

impl LoginSuccess {
    pub const ID: PacketId = 0x02;

    pub open spec fn layout() -> Seq<FieldKind> {
        seq![FieldKind::Str, FieldKind::Str]
    }

    pub open spec fn model(&self) -> Seq<FieldModel> {
        seq![FieldModel::Str(self.uuid@), FieldModel::Str(self.username@)]
    }

    pub fn kinds() -> (r: Vec<FieldKind>)
        ensures
            r@ == Self::layout(),
    {
        let mut kinds: Vec<FieldKind> = Vec::new();
        kinds.push(FieldKind::Str);
        kinds.push(FieldKind::Str);
        assert(kinds@ =~= Self::layout());
        kinds
    }

    /// The field values, in layout order.
    pub fn fields(&self) -> (r: Vec<FieldValue>)
        ensures
            models(r@) == self.model(),
    {
        let mut vs: Vec<FieldValue> = Vec::new();
        vs.push(FieldValue::Str(self.uuid.clone()));
        vs.push(FieldValue::Str(self.username.clone()));
        assert(models(vs@) =~= self.model());
        vs
    }

    /// This packet as one frame.
    pub fn encode(&self) -> (r: McResult<Vec<u8>>)
        ensures
            match frame_of(Self::ID, self.model()) {
                Ok(frame) => r is Ok && r.unwrap()@ == frame,
                Err(e) => r == Err::<Vec<u8>, McError>(e),
            },
    {
        let vs = self.fields();
        encode_packet(Self::ID, &vs)
    }
}

/// Play phase: the first packet after login.
#[derive(Debug, Clone)]
pub struct JoinGame {
    pub entity_id: i32,
    pub gamemode: u8,
    pub dimension: i32,
    pub hashed_seed: i64,
    pub max_players: u8,
    pub level_type: String,
    pub view_distance: i32,
    pub reduced_debug_info: bool,
    pub enable_respawn_screen: bool,
}

impl JoinGame {
    pub const ID: PacketId = 0x26;

    pub open spec fn layout() -> Seq<FieldKind> {
        seq![FieldKind::Int, FieldKind::UByte, FieldKind::Int, FieldKind::Long, FieldKind::UByte, FieldKind::Str, FieldKind::VarInt, FieldKind::Bool, FieldKind::Bool]
    }

    pub open spec fn model(&self) -> Seq<FieldModel> {
        seq![FieldModel::Int(self.entity_id), FieldModel::UByte(self.gamemode), FieldModel::Int(self.dimension), FieldModel::Long(self.hashed_seed), FieldModel::UByte(self.max_players), FieldModel::Str(self.level_type@), FieldModel::VarInt(self.view_distance), FieldModel::Bool(self.reduced_debug_info), FieldModel::Bool(self.enable_respawn_screen)]
    }

    pub fn kinds() -> (r: Vec<FieldKind>)
        ensures
            r@ == Self::layout(),
    {
        let mut kinds: Vec<FieldKind> = Vec::new();
        kinds.push(FieldKind::Int);
        kinds.push(FieldKind::UByte);
        kinds.push(FieldKind::Int);
        kinds.push(FieldKind::Long);
        kinds.push(FieldKind::UByte);
        kinds.push(FieldKind::Str);
        kinds.push(FieldKind::VarInt);
        kinds.push(FieldKind::Bool);
        kinds.push(FieldKind::Bool);
        assert(kinds@ =~= Self::layout());
        kinds
    }

    /// The field values, in layout order.
    pub fn fields(&self) -> (r: Vec<FieldValue>)
        ensures
            models(r@) == self.model(),
    {
        let mut vs: Vec<FieldValue> = Vec::new();
        vs.push(FieldValue::Int(self.entity_id));
        vs.push(FieldValue::UByte(self.gamemode));
        vs.push(FieldValue::Int(self.dimension));
        vs.push(FieldValue::Long(self.hashed_seed));
        vs.push(FieldValue::UByte(self.max_players));
        vs.push(FieldValue::Str(self.level_type.clone()));
        vs.push(FieldValue::VarInt(self.view_distance));
        vs.push(FieldValue::Bool(self.reduced_debug_info));
        vs.push(FieldValue::Bool(self.enable_respawn_screen));
        assert(models(vs@) =~= self.model());
        vs
    }

    /// This packet as one frame.
    pub fn encode(&self) -> (r: McResult<Vec<u8>>)
        ensures
            match frame_of(Self::ID, self.model()) {
                Ok(frame) => r is Ok && r.unwrap()@ == frame,
                Err(e) => r == Err::<Vec<u8>, McError>(e),
            },
    {
        let vs = self.fields();
        encode_packet(Self::ID, &vs)
    }
}

/// Play phase: a keep-alive token that the client must send back.
#[derive(Debug, Clone)]
pub struct KeepAlive {
    pub keep_alive_id: i64,
}

impl KeepAlive {
    pub const ID: PacketId = 0x21;

    pub open spec fn layout() -> Seq<FieldKind> {
        seq![FieldKind::Long]
    }

    pub open spec fn model(&self) -> Seq<FieldModel> {
        seq![FieldModel::Long(self.keep_alive_id)]
    }

    pub fn kinds() -> (r: Vec<FieldKind>)
        ensures
            r@ == Self::layout(),
    {
        let mut kinds: Vec<FieldKind> = Vec::new();
        kinds.push(FieldKind::Long);
        assert(kinds@ =~= Self::layout());
        kinds
    }

    /// The field values, in layout order.
    pub fn fields(&self) -> (r: Vec<FieldValue>)
        ensures
            models(r@) == self.model(),
    {
        let mut vs: Vec<FieldValue> = Vec::new();
        vs.push(FieldValue::Long(self.keep_alive_id));
        assert(models(vs@) =~= self.model());
        vs
    }

    /// This packet as one frame.
    pub fn encode(&self) -> (r: McResult<Vec<u8>>)
        ensures
            match frame_of(Self::ID, self.model()) {
                Ok(frame) => r is Ok && r.unwrap()@ == frame,
                Err(e) => r == Err::<Vec<u8>, McError>(e),
            },
    {
        let vs = self.fields();
        encode_packet(Self::ID, &vs)
    }
}

/// Play phase: select a hotbar slot.
#[derive(Debug, Clone)]
pub struct HeldItemChange {
    pub slot: i8,
}

impl HeldItemChange {
    pub const ID: PacketId = 0x3F;

    pub open spec fn layout() -> Seq<FieldKind> {
        seq![FieldKind::Byte]
    }

    pub open spec fn model(&self) -> Seq<FieldModel> {
        seq![FieldModel::Byte(self.slot)]
    }

    pub fn kinds() -> (r: Vec<FieldKind>)
        ensures
            r@ == Self::layout(),
    {
        let mut kinds: Vec<FieldKind> = Vec::new();
        kinds.push(FieldKind::Byte);
        assert(kinds@ =~= Self::layout());
        kinds
    }

    /// The field values, in layout order.
    pub fn fields(&self) -> (r: Vec<FieldValue>)
        ensures
            models(r@) == self.model(),
    {
        let mut vs: Vec<FieldValue> = Vec::new();
        vs.push(FieldValue::Byte(self.slot));
        assert(models(vs@) =~= self.model());
        vs
    }

    /// This packet as one frame.
    pub fn encode(&self) -> (r: McResult<Vec<u8>>)
        ensures
            match frame_of(Self::ID, self.model()) {
                Ok(frame) => r is Ok && r.unwrap()@ == frame,
                Err(e) => r == Err::<Vec<u8>, McError>(e),
            },
    {
        let vs = self.fields();
        encode_packet(Self::ID, &vs)
    }
}

/// Play phase: teleport the player; coordinates and angles as float bit patterns.
#[derive(Debug, Clone)]
pub struct PlayerPositionAndLook {
    pub x: u64,
    pub y: u64,
    pub z: u64,
    pub yaw: u32,
    pub pitch: u32,
    pub flags: i8,
    pub teleport_id: i32,
}

impl PlayerPositionAndLook {
    pub const ID: PacketId = 0x36;

    pub open spec fn layout() -> Seq<FieldKind> {
        seq![FieldKind::Double, FieldKind::Double, FieldKind::Double, FieldKind::Float, FieldKind::Float, FieldKind::Byte, FieldKind::VarInt]
    }

    pub open spec fn model(&self) -> Seq<FieldModel> {
        seq![FieldModel::Double(self.x), FieldModel::Double(self.y), FieldModel::Double(self.z), FieldModel::Float(self.yaw), FieldModel::Float(self.pitch), FieldModel::Byte(self.flags), FieldModel::VarInt(self.teleport_id)]
    }

    pub fn kinds() -> (r: Vec<FieldKind>)
        ensures
            r@ == Self::layout(),
    {
        let mut kinds: Vec<FieldKind> = Vec::new();
        kinds.push(FieldKind::Double);
        kinds.push(FieldKind::Double);
        kinds.push(FieldKind::Double);
        kinds.push(FieldKind::Float);
        kinds.push(FieldKind::Float);
        kinds.push(FieldKind::Byte);
        kinds.push(FieldKind::VarInt);
        assert(kinds@ =~= Self::layout());
        kinds
    }

    /// The field values, in layout order.
    pub fn fields(&self) -> (r: Vec<FieldValue>)
        ensures
            models(r@) == self.model(),
    {
        let mut vs: Vec<FieldValue> = Vec::new();
        vs.push(FieldValue::Double(self.x));
        vs.push(FieldValue::Double(self.y));
        vs.push(FieldValue::Double(self.z));
        vs.push(FieldValue::Float(self.yaw));
        vs.push(FieldValue::Float(self.pitch));
        vs.push(FieldValue::Byte(self.flags));
        vs.push(FieldValue::VarInt(self.teleport_id));
        assert(models(vs@) =~= self.model());
        vs
    }

    /// This packet as one frame.
    pub fn encode(&self) -> (r: McResult<Vec<u8>>)
        ensures
            match frame_of(Self::ID, self.model()) {
                Ok(frame) => r is Ok && r.unwrap()@ == frame,
                Err(e) => r == Err::<Vec<u8>, McError>(e),
            },
    {
        let vs = self.fields();
        encode_packet(Self::ID, &vs)
    }
}

/// Play phase: the world spawn point.
#[derive(Debug, Clone)]
pub struct SpawnPosition {
    pub location: PositionField,
}

impl SpawnPosition {
    pub const ID: PacketId = 0x4E;

    pub open spec fn layout() -> Seq<FieldKind> {
        seq![FieldKind::Position]
    }

    pub open spec fn model(&self) -> Seq<FieldModel> {
        seq![FieldModel::Position(self.location.x, self.location.y, self.location.z)]
    }

    pub fn kinds() -> (r: Vec<FieldKind>)
        ensures
            r@ == Self::layout(),
    {
        let mut kinds: Vec<FieldKind> = Vec::new();
        kinds.push(FieldKind::Position);
        assert(kinds@ =~= Self::layout());
        kinds
    }

    /// The field values, in layout order.
    pub fn fields(&self) -> (r: Vec<FieldValue>)
        ensures
            models(r@) == self.model(),
    {
        let mut vs: Vec<FieldValue> = Vec::new();
        vs.push(FieldValue::Position(self.location.x, self.location.y, self.location.z));
        assert(models(vs@) =~= self.model());
        vs
    }

    /// This packet as one frame.
    pub fn encode(&self) -> (r: McResult<Vec<u8>>)
        ensures
            match frame_of(Self::ID, self.model()) {
                Ok(frame) => r is Ok && r.unwrap()@ == frame,
                Err(e) => r == Err::<Vec<u8>, McError>(e),
            },
    {
        let vs = self.fields();
        encode_packet(Self::ID, &vs)
    }
}

/// Play phase: the server kicks the player, with a chat-JSON reason.
#[derive(Debug, Clone)]
pub struct Disconnect {
    pub reason: String,
}

impl Disconnect {
    pub const ID: PacketId = 0x1B;

    pub open spec fn layout() -> Seq<FieldKind> {
        seq![FieldKind::Str]
    }

    pub open spec fn model(&self) -> Seq<FieldModel> {
        seq![FieldModel::Str(self.reason@)]
    }

    pub fn kinds() -> (r: Vec<FieldKind>)
        ensures
            r@ == Self::layout(),
    {
        let mut kinds: Vec<FieldKind> = Vec::new();
        kinds.push(FieldKind::Str);
        assert(kinds@ =~= Self::layout());
        kinds
    }

    /// The field values, in layout order.
    pub fn fields(&self) -> (r: Vec<FieldValue>)
        ensures
            models(r@) == self.model(),
    {
        let mut vs: Vec<FieldValue> = Vec::new();
        vs.push(FieldValue::Str(self.reason.clone()));
        assert(models(vs@) =~= self.model());
        vs
    }

    /// This packet as one frame.
    pub fn encode(&self) -> (r: McResult<Vec<u8>>)
        ensures
            match frame_of(Self::ID, self.model()) {
                Ok(frame) => r is Ok && r.unwrap()@ == frame,
                Err(e) => r == Err::<Vec<u8>, McError>(e),
            },
    {
        let vs = self.fields();
        encode_packet(Self::ID, &vs)
    }
}

} // verus!
