//! The per-connection phase machine: Handshake, then Status or Login, then
//! Play. Each inbound packet is handled by the current phase, which answers
//! with client-bound frames, moves to its next phase, and may ask the
//! connection driver to act (authenticate, tell the game coordinator).
//!
//! Any error ends the connection, announced first by one kick packet
//! carrying the error's text: a login disconnect while logging in, a play
//! disconnect otherwise. An orderly end (after a status ping) is not
//! announced.
use vstd::prelude::*;

use crate::auth::{generate_hash, hyphenated_of, random_bytes, random_uuid, session_hash, uuid_text};
use crate::error::{error_text, McError, McResult};
use crate::field::{kind_of, parse_field, read_field_value, FieldKind, FieldModel};
use crate::identifier::{location_of, namespace_of, IdentifierField};
use crate::packet::{
    decode_spec, fields_bytes, fills_layout, frame_of, lemma_frame_fits, lemma_payload_integrity,
    PacketBody,
};
use crate::protocol::{
    ClientSettings, Disconnect, DisconnectLogin, Empty, EncryptionRequest, EncryptionResponse,
    Handshake, KeepAliveResponse, LoginStart, LoginSuccess, Ping, PlayerPositionAndRotation,
    PluginMessage, Pong, StatusResponse, TeleportConfirm,
};
use crate::server::{OnlineStatus, ServerData};

verus! {

/// The phase of a connection, with what it remembers.
pub enum ConnectionPhase {
    Handshake,
    Status,
    /// Logging in; once an encryption request was sent, the player's name and
    /// the verify token it carried.
    Login { player_name: String, verify_token: Vec<u8> },
    /// Waiting for the session service to vouch for the player.
    Authenticating { player_name: String },
    Play { player_name: String, uuid: u128 },
    /// The connection is over.
    Closed,
}

pub enum PhaseModel {
    Handshake,
    Status,
    Login { player_name: Seq<char>, verify_token: Seq<u8> },
    Authenticating { player_name: Seq<char> },
    Play { player_name: Seq<char>, uuid: u128 },
    Closed,
}

impl View for ConnectionPhase {
    type V = PhaseModel;

    open spec fn view(&self) -> PhaseModel {
        match self {
            ConnectionPhase::Handshake => PhaseModel::Handshake,
            ConnectionPhase::Status => PhaseModel::Status,
            ConnectionPhase::Login { player_name, verify_token } => PhaseModel::Login {
                player_name: player_name@,
                verify_token: verify_token@,
            },
            ConnectionPhase::Authenticating { player_name } => PhaseModel::Authenticating {
                player_name: player_name@,
            },
            ConnectionPhase::Play { player_name, uuid } => PhaseModel::Play {
                player_name: player_name@,
                uuid: *uuid,
            },
            ConnectionPhase::Closed => PhaseModel::Closed,
        }
    }
}

/// What the connection driver must do after a packet was handled.
pub enum PostPacketAction {
    Nothing,
    /// Switch the transport to the cipher keyed by `shared_secret`, then ask
    /// the session service about `player_name` with `server_hash`, and hand
    /// the answer to `ConnectionState::complete_login`.
    Authenticate { player_name: String, shared_secret: Vec<u8>, server_hash: String },
    /// The player joined: register them with the game coordinator.
    EnteredPlayState { player_name: String, player_uuid: u128 },
    /// Tell the game coordinator the player confirmed this teleport id.
    VerifyTeleport(i32),
    /// Tell the game coordinator the player answered this keep-alive token.
    VerifyKeepAlive(i64),
}

pub enum ActionModel {
    Nothing,
    Authenticate { player_name: Seq<char>, shared_secret: Seq<u8>, server_hash: Seq<char> },
    EnteredPlayState { player_name: Seq<char>, player_uuid: u128 },
    VerifyTeleport(i32),
    VerifyKeepAlive(i64),
}

impl View for PostPacketAction {
    type V = ActionModel;

    open spec fn view(&self) -> ActionModel {
        match self {
            PostPacketAction::Nothing => ActionModel::Nothing,
            PostPacketAction::Authenticate { player_name, shared_secret, server_hash } =>
                ActionModel::Authenticate {
                player_name: player_name@,
                shared_secret: shared_secret@,
                server_hash: server_hash@,
            },
            PostPacketAction::EnteredPlayState { player_name, player_uuid } =>
                ActionModel::EnteredPlayState { player_name: player_name@, player_uuid: *player_uuid },
            PostPacketAction::VerifyTeleport(id) => ActionModel::VerifyTeleport(*id),
            PostPacketAction::VerifyKeepAlive(k) => ActionModel::VerifyKeepAlive(*k),
        }
    }
}

/// The result of handling one packet: the frames to send, in order, and
/// what comes next. An `Err` ends the connection once the frames are sent.
pub struct Step {
    pub responses: Vec<Vec<u8>>,
    pub result: McResult<PostPacketAction>,
}

/// What handling a packet amounts to: the next phase, the frames sent, and
/// the action or error.
pub struct Outcome {
    pub next: PhaseModel,
    pub responses: Seq<Seq<u8>>,
    pub result: Result<ActionModel, McError>,
}

pub open spec fn frames_view(v: Seq<Vec<u8>>) -> Seq<Seq<u8>> {
    v.map_values(|f: Vec<u8>| f@)
}

pub open spec fn outcome_of(step: Step, next: PhaseModel) -> Outcome {
    Outcome {
        next,
        responses: frames_view(step.responses@),
        result: match step.result {
            Ok(a) => Ok(a@),
            Err(e) => Err(e),
        },
    }
}

pub open spec fn done(next: PhaseModel, responses: Seq<Seq<u8>>, action: ActionModel) -> Outcome {
    Outcome { next, responses, result: Ok(action) }
}

/// The chat JSON that carries a plain text.
pub open spec fn chat_json_of(text: Seq<char>) -> Seq<char> {
    "{\"text\": \""@ + text + "\"}"@
}

/// The kick packet for `e`: a login disconnect while logging in, a play
/// disconnect after.
pub open spec fn kick_frames(in_login: bool, e: McError) -> Seq<Seq<u8>> {
    let id = if in_login {
        DisconnectLogin::ID
    } else {
        Disconnect::ID
    };
    match frame_of(id, seq![FieldModel::Str(chat_json_of(error_text(e)))]) {
        Ok(f) => seq![f],
        Err(_) => Seq::empty(),
    }
}

/// An error with no kick: the connection ends.
pub open spec fn fail(e: McError) -> Outcome {
    Outcome { next: PhaseModel::Closed, responses: Seq::empty(), result: Err(e) }
}

/// An error announced by a kick: the connection ends.
pub open spec fn fail_kick(in_login: bool, e: McError) -> Outcome {
    Outcome { next: PhaseModel::Closed, responses: kick_frames(in_login, e), result: Err(e) }
}

/// Handshake: the next-state field picks Status (1) or Login (2).
pub open spec fn handshake_outcome(id: i32, body: Seq<u8>) -> Outcome {
    match decode_spec(Handshake::ID, Handshake::layout(), id, body) {
        Err(e) => fail_kick(false, e),
        Ok(ms) => match ms[3] {
            FieldModel::VarInt(1) => done(PhaseModel::Status, Seq::empty(), ActionModel::Nothing),
            FieldModel::VarInt(2) => done(
                PhaseModel::Login { player_name: Seq::empty(), verify_token: Seq::empty() },
                Seq::empty(),
                ActionModel::Nothing,
            ),
            FieldModel::VarInt(x) => fail_kick(false, McError::BadNextState(x)),
            _ => fail_kick(false, McError::BadNextState(0)),
        },
    }
}

/// The status JSON that describes the server.
pub open spec fn status_json_of(description: Seq<char>, icon: Seq<char>) -> Seq<char> {
    "{\"version\": {\"name\": \"1.15.2\", \"protocol\": 578 }, \"players\": { \"max\": 10, \"online\": 7, \"sample\": [] }, \"description\": { \"text\": \""@
        + description + "\" }, \"favicon\": \"data:image/png;base64,"@ + icon + "\"}"@
}

/// Status: a status request is answered with the status JSON; a ping is
/// answered with a pong carrying its payload, and the connection ends.
pub open spec fn status_outcome(id: i32, body: Seq<u8>, json: Seq<char>) -> Outcome {
    if id == Empty::ID {
        match decode_spec(Empty::ID, Empty::layout(), id, body) {
            Err(e) => fail_kick(false, e),
            Ok(_) => match frame_of(StatusResponse::ID, seq![FieldModel::Str(json)]) {
                Ok(f) => done(PhaseModel::Status, seq![f], ActionModel::Nothing),
                Err(e) => fail_kick(false, e),
            },
        }
    } else if id == Ping::ID {
        match decode_spec(Ping::ID, Ping::layout(), id, body) {
            Err(e) => fail_kick(false, e),
            Ok(ms) => match frame_of(Pong::ID, seq![ms[0]]) {
                Ok(f) => Outcome {
                    next: PhaseModel::Closed,
                    responses: seq![f],
                    result: Err(McError::PleaseDisconnect),
                },
                Err(e) => fail_kick(false, e),
            },
        }
    } else {
        fail_kick(false, McError::BadPacketId(id))
    }
}

/// Login start: offline, the player is in at once with `uuid`; online, an
/// encryption request carries the public key and `verify_token`.
pub open spec fn login_start_outcome(
    id: i32,
    body: Seq<u8>,
    status: Result<Option<Seq<u8>>, McError>,
    uuid: u128,
    verify_token: Seq<u8>,
) -> Outcome {
    match decode_spec(LoginStart::ID, LoginStart::layout(), id, body) {
        Err(e) => fail_kick(true, e),
        Ok(ms) => match ms[0] {
            FieldModel::Str(name) => match status {
                Err(e) => fail_kick(true, e),
                Ok(None) => match frame_of(
                    LoginSuccess::ID,
                    seq![FieldModel::Str(hyphenated_of(uuid)), FieldModel::Str(name)],
                ) {
                    Ok(f) => done(
                        PhaseModel::Play { player_name: name, uuid },
                        seq![f],
                        ActionModel::EnteredPlayState { player_name: name, player_uuid: uuid },
                    ),
                    Err(e) => fail_kick(true, e),
                },
                Ok(Some(public_key)) => match frame_of(
                    EncryptionRequest::ID,
                    seq![
                        FieldModel::Str(Seq::empty()),
                        FieldModel::Bytes(public_key),
                        FieldModel::Bytes(verify_token),
                    ],
                ) {
                    Ok(f) => done(
                        PhaseModel::Login { player_name: name, verify_token },
                        seq![f],
                        ActionModel::Nothing,
                    ),
                    Err(e) => fail_kick(true, e),
                },
            },
            _ => fail_kick(true, McError::BadString),
        },
    }
}

/// Encryption response, once the client's token and secret were decrypted
/// (`decrypted` is `None` when decryption failed): the token must be the
/// one issued; then the driver authenticates the player.
pub open spec fn encryption_outcome(
    player_name: Seq<char>,
    verify_token: Seq<u8>,
    decrypted: Option<(Seq<u8>, Seq<u8>, Seq<u8>)>,
) -> Outcome {
    match decrypted {
        None => fail_kick(true, McError::OpenSsl),
        Some((token, secret, public_key)) => if token != verify_token {
            fail_kick(true, McError::VerifyTokenMismatch)
        } else {
            done(
                PhaseModel::Authenticating { player_name },
                Seq::empty(),
                ActionModel::Authenticate {
                    player_name,
                    shared_secret: secret,
                    server_hash: session_hash(Seq::empty(), secret, public_key),
                },
            )
        },
    }
}

/// The end of login: the session service's answer.
pub open spec fn complete_login_outcome(player_name: Seq<char>, auth: Result<u128, McError>) -> Outcome {
    match auth {
        Err(e) => fail_kick(true, e),
        Ok(uuid) => match frame_of(
            LoginSuccess::ID,
            seq![FieldModel::Str(hyphenated_of(uuid)), FieldModel::Str(player_name)],
        ) {
            Ok(f) => done(
                PhaseModel::Play { player_name, uuid },
                seq![f],
                ActionModel::EnteredPlayState { player_name, player_uuid: uuid },
            ),
            Err(e) => fail_kick(true, e),
        },
    }
}

/// Whether a plugin channel is the client-brand channel.
pub open spec fn is_brand_channel(channel: Seq<char>) -> bool {
    namespace_of(channel) == "minecraft"@ && location_of(channel) == "brand"@
}

/// Play: settings and movement are accepted, teleport confirmations and
/// keep-alive answers go to the game coordinator, and a brand plugin
/// message must hold a string.
pub open spec fn play_outcome(player_name: Seq<char>, uuid: u128, id: i32, body: Seq<u8>) -> Outcome {
    let stay = PhaseModel::Play { player_name, uuid };
    if id == TeleportConfirm::ID {
        match decode_spec(TeleportConfirm::ID, TeleportConfirm::layout(), id, body) {
            Err(e) => fail_kick(false, e),
            Ok(ms) => match ms[0] {
                FieldModel::VarInt(t) => done(stay, Seq::empty(), ActionModel::VerifyTeleport(t)),
                _ => fail_kick(false, McError::BadVarInt),
            },
        }
    } else if id == ClientSettings::ID {
        match decode_spec(ClientSettings::ID, ClientSettings::layout(), id, body) {
            Err(e) => fail_kick(false, e),
            Ok(_) => done(stay, Seq::empty(), ActionModel::Nothing),
        }
    } else if id == PluginMessage::ID {
        match decode_spec(PluginMessage::ID, PluginMessage::layout(), id, body) {
            Err(e) => fail_kick(false, e),
            Ok(ms) => match (ms[0], ms[1]) {
                (FieldModel::Str(channel), FieldModel::Rest(data)) => if is_brand_channel(
                    channel,
                ) {
                    match parse_field(FieldKind::Str, data) {
                        Err(e) => fail_kick(false, e),
                        Ok(_) => done(stay, Seq::empty(), ActionModel::Nothing),
                    }
                } else {
                    done(stay, Seq::empty(), ActionModel::Nothing)
                },
                _ => fail_kick(false, McError::BadString),
            },
        }
    } else if id == KeepAliveResponse::ID {
        match decode_spec(KeepAliveResponse::ID, KeepAliveResponse::layout(), id, body) {
            Err(e) => fail_kick(false, e),
            Ok(ms) => match ms[0] {
                FieldModel::Long(k) => done(stay, Seq::empty(), ActionModel::VerifyKeepAlive(k)),
                _ => fail_kick(false, McError::BadVarInt),
            },
        }
    } else if id == PlayerPositionAndRotation::ID {
        match decode_spec(
            PlayerPositionAndRotation::ID,
            PlayerPositionAndRotation::layout(),
            id,
            body,
        ) {
            Err(e) => fail_kick(false, e),
            Ok(_) => done(stay, Seq::empty(), ActionModel::Nothing),
        }
    } else {
        fail_kick(false, McError::BadPacketId(id))
    }
}

/// Builds the chat JSON for a plain text.
pub fn chat_json(text: &str) -> (r: String)
    ensures
        r@ == chat_json_of(text@),
{
    let mut s = String::from_str("{\"text\": \"");
    s.append(text);
    s.append("\"}");
    s
}

/// Builds the status JSON for a description and a base64 PNG icon.
pub fn generate_json(description: &str, icon_b64: &str) -> (r: String)
    ensures
        r@ == status_json_of(description@, icon_b64@),
{
    let mut s = String::from_str(
        "{\"version\": {\"name\": \"1.15.2\", \"protocol\": 578 }, \"players\": { \"max\": 10, \"online\": 7, \"sample\": [] }, \"description\": { \"text\": \"",
    );
    s.append(description);
    s.append("\" }, \"favicon\": \"data:image/png;base64,");
    s.append(icon_b64);
    s.append("\"}");
    s
}

/// The kick frames for `e`, for a connection in Login or in Play.
pub fn kick(in_login: bool, e: &McError) -> (r: Vec<Vec<u8>>)
    ensures
        frames_view(r@) == kick_frames(in_login, *e),
{
    let text = e.message();
    let reason = chat_json(text.as_str());
    let encoded = if in_login {
        DisconnectLogin { reason }.encode()
    } else {
        Disconnect { reason }.encode()
    };
    let mut frames: Vec<Vec<u8>> = Vec::new();
    match encoded {
        Ok(f) => frames.push(f),
        Err(_) => {},
    }
    assert(frames_view(frames@) =~= kick_frames(in_login, *e));
    frames
}

/// The values a login may need that only chance provides: the id of an
/// offline player and the verify token of an online one.
pub struct LoginDraw {
    pub uuid: u128,
    pub verify_token: Vec<u8>,
}

impl LoginDraw {
    /// Draws a random id and a random two-byte verify token.
    pub fn new() -> (r: McResult<LoginDraw>)
        ensures
            r matches Ok(d) ==> d.verify_token@.len() == 2,
            r is Err ==> r == Err::<LoginDraw, McError>(McError::OpenSsl),
    {
        let uuid = match random_uuid() {
            Some(u) => u,
            None => return Err(McError::OpenSsl),
        };
        match random_bytes(2) {
            Some(verify_token) => Ok(LoginDraw { uuid, verify_token }),
            None => Err(McError::OpenSsl),
        }
    }
}

fn finish(next: ConnectionPhase, responses: Vec<Vec<u8>>, action: PostPacketAction) -> (r: (
    ConnectionPhase,
    Step,
))
    ensures
        outcome_of(r.1, r.0@) == done(next@, frames_view(responses@), action@),
{
    (next, Step { responses, result: Ok(action) })
}

fn failed(e: McError) -> (r: (ConnectionPhase, Step))
    ensures
        outcome_of(r.1, r.0@) == fail(e),
{
    let responses: Vec<Vec<u8>> = Vec::new();
    assert(frames_view(responses@) =~= Seq::<Seq<u8>>::empty());
    (ConnectionPhase::Closed, Step { responses, result: Err(e) })
}

fn kicked(in_login: bool, e: McError) -> (r: (ConnectionPhase, Step))
    ensures
        outcome_of(r.1, r.0@) == fail_kick(in_login, e),
{
    let responses = kick(in_login, &e);
    (ConnectionPhase::Closed, Step { responses, result: Err(e) })
}

fn one_frame(f: Vec<u8>) -> (r: Vec<Vec<u8>>)
    ensures
        frames_view(r@) == seq![f@],
{
    let mut v: Vec<Vec<u8>> = Vec::new();
    v.push(f);
    assert(frames_view(v@) =~= seq![f@]);
    v
}

fn no_frames() -> (r: Vec<Vec<u8>>)
    ensures
        frames_view(r@) == Seq::<Seq<u8>>::empty(),
{
    let v: Vec<Vec<u8>> = Vec::new();
    assert(frames_view(v@) =~= Seq::<Seq<u8>>::empty());
    v
}

/// Handles a packet in the Handshake phase.
pub fn handle_handshake(packet: &PacketBody) -> (r: (ConnectionPhase, Step))
    ensures
        outcome_of(r.1, r.0@) == handshake_outcome(packet.id, packet.body@),
{
    let handshake = match Handshake::read_packet(packet) {
        Ok(h) => h,
        Err(e) => return kicked(false, e),
    };
    match handshake.next_state {
        1 => finish(ConnectionPhase::Status, no_frames(), PostPacketAction::Nothing),
        2 => {
            let login = ConnectionPhase::Login {
                player_name: String::new(),
                verify_token: Vec::new(),
            };
            finish(login, no_frames(), PostPacketAction::Nothing)
        },
        x => kicked(false, McError::BadNextState(x)),
    }
}

/// Handles a packet in the Status phase; `json` is the status to report.
pub fn handle_status(packet: &PacketBody, json: &String) -> (r: (ConnectionPhase, Step))
    ensures
        outcome_of(r.1, r.0@) == status_outcome(packet.id, packet.body@, json@),
{
    if packet.id == Empty::ID {
        match Empty::read_packet(packet) {
            Ok(_) => {},
            Err(e) => return kicked(false, e),
        }
        let response = StatusResponse { json_response: json.clone() };
        match response.encode() {
            Ok(f) => finish(ConnectionPhase::Status, one_frame(f), PostPacketAction::Nothing),
            Err(e) => kicked(false, e),
        }
    } else if packet.id == Ping::ID {
        let ping = match Ping::read_packet(packet) {
            Ok(p) => p,
            Err(e) => return kicked(false, e),
        };
        let pong = Pong { payload: ping.payload };
        match pong.encode() {
            Ok(f) => (
                ConnectionPhase::Closed,
                Step { responses: one_frame(f), result: Err(McError::PleaseDisconnect) },
            ),
            Err(e) => kicked(false, e),
        }
    } else {
        kicked(false, McError::BadPacketId(packet.id))
    }
}

pub open spec fn status_model(s: McResult<OnlineStatus>) -> Result<Option<Seq<u8>>, McError> {
    match s {
        Ok(OnlineStatus::Offline) => Ok(None),
        Ok(OnlineStatus::Online { public_key }) => Ok(Some(public_key@)),
        Err(e) => Err(e),
    }
}

/// Handles a login start, given the server's online status and the drawn
/// values.
pub fn handle_login_start(packet: &PacketBody, status: McResult<OnlineStatus>, draw: &LoginDraw) -> (r: (
    ConnectionPhase,
    Step,
))
    ensures
        outcome_of(r.1, r.0@) == login_start_outcome(
            packet.id,
            packet.body@,
            status_model(status),
            draw.uuid,
            draw.verify_token@,
        ),
{
    let start = match LoginStart::read_packet(packet) {
        Ok(s) => s,
        Err(e) => return kicked(true, e),
    };
    let player_name = start.name;
    match status {
        Err(e) => kicked(true, e),
        Ok(OnlineStatus::Offline) => {
            let uuid = draw.uuid;
            let success = LoginSuccess { uuid: uuid_text(uuid), username: player_name.clone() };
            match success.encode() {
                Ok(f) => {
                    let next = ConnectionPhase::Play { player_name: player_name.clone(), uuid };
                    let action = PostPacketAction::EnteredPlayState { player_name, player_uuid: uuid };
                    finish(next, one_frame(f), action)
                },
                Err(e) => kicked(true, e),
            }
        },
        Ok(OnlineStatus::Online { public_key }) => {
            let verify_token = crate::field::copy_range(
                draw.verify_token.as_slice(),
                0,
                draw.verify_token.len(),
            );
            assert(draw.verify_token@.subrange(0, draw.verify_token@.len() as int)
                =~= draw.verify_token@);
            let request = EncryptionRequest {
                server_id: String::new(),
                pub_key: public_key,
                verify_token: crate::field::copy_range(verify_token.as_slice(), 0, verify_token.len()),
            };
            assert(verify_token@.subrange(0, verify_token@.len() as int) =~= verify_token@);
            match request.encode() {
                Ok(f) => {
                    let next = ConnectionPhase::Login { player_name, verify_token };
                    finish(next, one_frame(f), PostPacketAction::Nothing)
                },
                Err(e) => kicked(true, e),
            }
        },
    }
}

/// Checks a decrypted encryption response against the issued verify token.
pub fn verify_encryption(
    player_name: String,
    verify_token: &Vec<u8>,
    decrypted_token: &Vec<u8>,
    shared_secret: Vec<u8>,
    public_key: &Vec<u8>,
) -> (r: (ConnectionPhase, Step))
    ensures
        outcome_of(r.1, r.0@) == encryption_outcome(
            player_name@,
            verify_token@,
            Some((decrypted_token@, shared_secret@, public_key@)),
        ),
{
    if !bytes_equal(decrypted_token.as_slice(), verify_token.as_slice()) {
        return kicked(true, McError::VerifyTokenMismatch);
    }
    let server_hash = generate_hash("", shared_secret.as_slice(), public_key.as_slice());
    proof {
        reveal_strlit("");
    }
    let next = ConnectionPhase::Authenticating { player_name: player_name.clone() };
    let action = PostPacketAction::Authenticate { player_name, shared_secret, server_hash };
    finish(next, no_frames(), action)
}

/// Whether two byte sequences are equal.
pub fn bytes_equal(a: &[u8], b: &[u8]) -> (r: bool)
    ensures
        r == (a@ == b@),
{
    if a.len() != b.len() {
        return false;
    }
    let mut i: usize = 0;
    while i < a.len()
        invariant
            i <= a@.len() == b@.len(),
            forall|j: int| 0 <= j < i ==> a@[j] == b@[j],
        decreases a@.len() - i,
    {
        if a[i] != b[i] {
            return false;
        }
        i = i + 1;
    }
    assert(a@ =~= b@);
    true
}

/// Handles a packet in the Play phase.
pub fn handle_play(player_name: String, uuid: u128, packet: &PacketBody) -> (r: (
    ConnectionPhase,
    Step,
))
    ensures
        outcome_of(r.1, r.0@) == play_outcome(player_name@, uuid, packet.id, packet.body@),
{
    let stay = ConnectionPhase::Play { player_name, uuid };
    if packet.id == TeleportConfirm::ID {
        match TeleportConfirm::read_packet(packet) {
            Ok(c) => finish(stay, no_frames(), PostPacketAction::VerifyTeleport(c.teleport_id)),
            Err(e) => kicked(false, e),
        }
    } else if packet.id == ClientSettings::ID {
        match ClientSettings::read_packet(packet) {
            Ok(_) => finish(stay, no_frames(), PostPacketAction::Nothing),
            Err(e) => kicked(false, e),
        }
    } else if packet.id == PluginMessage::ID {
        let message = match PluginMessage::read_packet(packet) {
            Ok(m) => m,
            Err(e) => return kicked(false, e),
        };
        let channel = IdentifierField::new(message.channel);
        let namespace = channel.namespace();
        let location = channel.location();
        if crate::auth::str_equal(namespace.as_str(), "minecraft") && crate::auth::str_equal(
            location.as_str(),
            "brand",
        ) {
            match read_field_value(FieldKind::Str, message.data.as_slice(), 0) {
                Ok(_) => {},
                Err(e) => {
                    assert(message.data@.subrange(0, message.data@.len() as int)
                        =~= message.data@);
                    return kicked(false, e);
                },
            }
            assert(message.data@.subrange(0, message.data@.len() as int) =~= message.data@);
        }
        finish(stay, no_frames(), PostPacketAction::Nothing)
    } else if packet.id == KeepAliveResponse::ID {
        match KeepAliveResponse::read_packet(packet) {
            Ok(k) => finish(stay, no_frames(), PostPacketAction::VerifyKeepAlive(k.keep_alive_id)),
            Err(e) => kicked(false, e),
        }
    } else if packet.id == PlayerPositionAndRotation::ID {
        match PlayerPositionAndRotation::read_packet(packet) {
            Ok(_) => finish(stay, no_frames(), PostPacketAction::Nothing),
            Err(e) => kicked(false, e),
        }
    } else {
        kicked(false, McError::BadPacketId(packet.id))
    }
}

/// What handling a packet in Login amounts to. The server's online status
/// and the decryption of the client's answer come from the key pair, so for
/// them any outcome the key pair allows is admitted.
pub open spec fn login_handled_as(
    out: Outcome,
    player_name: Seq<char>,
    verify_token: Seq<u8>,
    id: i32,
    body: Seq<u8>,
    server: &ServerData,
    draw: &LoginDraw,
) -> bool {
    if id == LoginStart::ID {
        &&& !server.spec_online() ==> out == login_start_outcome(
            id,
            body,
            Ok(None),
            draw.uuid,
            draw.verify_token@,
        )
        &&& server.spec_online() ==> exists|s: Result<Option<Seq<u8>>, McError>|
            (s == Err::<Option<Seq<u8>>, McError>(McError::OpenSsl) || s is Ok && s.unwrap() is Some)
                && out == #[trigger] login_start_outcome(id, body, s, draw.uuid, draw.verify_token@)
    } else if id == EncryptionResponse::ID {
        match decode_spec(EncryptionResponse::ID, EncryptionResponse::layout(), id, body) {
            Err(e) => out == fail_kick(true, e),
            Ok(_) => exists|d: Option<(Seq<u8>, Seq<u8>, Seq<u8>)>|
                out == #[trigger] encryption_outcome(player_name, verify_token, d),
        }
    } else {
        out == fail_kick(true, McError::BadPacketId(id))
    }
}

/// What handling a packet in phase `phase` amounts to.
pub open spec fn handled_as_spec(
    phase: PhaseModel,
    out: Outcome,
    id: i32,
    body: Seq<u8>,
    server: &ServerData,
    draw: &LoginDraw,
) -> bool {
    match phase {
        PhaseModel::Handshake => out == handshake_outcome(id, body),
        PhaseModel::Status => out == status_outcome(
            id,
            body,
            status_json_of(server.spec_description(), server.spec_favicon()),
        ),
        PhaseModel::Login { player_name, verify_token } => login_handled_as(
            out,
            player_name,
            verify_token,
            id,
            body,
            server,
            draw,
        ),
        PhaseModel::Authenticating { .. } => out == fail_kick(true, McError::BadPacketId(id)),
        PhaseModel::Play { player_name, uuid } => out == play_outcome(player_name, uuid, id, body),
        PhaseModel::Closed => out == fail(McError::PleaseDisconnect),
    }
}

/// Handles a packet in the Login phase.
pub fn handle_login(
    player_name: String,
    verify_token: Vec<u8>,
    packet: &PacketBody,
    server: &ServerData,
    draw: &LoginDraw,
) -> (r: (ConnectionPhase, Step))
    ensures
        login_handled_as(
            outcome_of(r.1, r.0@),
            player_name@,
            verify_token@,
            packet.id,
            packet.body@,
            server,
            draw,
        ),
{
    if packet.id == LoginStart::ID {
        let status = server.online_status();
        let r = handle_login_start(packet, status, draw);
        proof {
            if server.spec_online() {
                assert(status_model(status) == Err::<Option<Seq<u8>>, McError>(McError::OpenSsl)
                    || status_model(status) is Ok && status_model(status).unwrap() is Some);
            }
        }
        r
    } else if packet.id == EncryptionResponse::ID {
        let response = match EncryptionResponse::read_packet(packet) {
            Ok(r) => r,
            Err(e) => return kicked(true, e),
        };
        let decrypted = match (
            server.decrypt(response.verify_token.as_slice()),
            server.decrypt(response.shared_secret.as_slice()),
            server.public_key(),
        ) {
            (Ok(t), Ok(s), Ok(k)) => Some((t, s, k)),
            _ => None,
        };
        match decrypted {
            Some((token, secret, public_key)) => {
                let ghost d = Some((token@, secret@, public_key@));
                let r = verify_encryption(player_name, &verify_token, &token, secret, &public_key);
                assert(outcome_of(r.1, r.0@) == encryption_outcome(
                    player_name@,
                    verify_token@,
                    d,
                ));
                r
            },
            None => {
                let r = kicked(true, McError::OpenSsl);
                assert(outcome_of(r.1, r.0@) == encryption_outcome(
                    player_name@,
                    verify_token@,
                    None,
                ));
                r
            },
        }
    } else {
        kicked(true, McError::BadPacketId(packet.id))
    }
}

/// One connection's state: its phase, and the id under which it joined the
/// game, if it did.
pub struct ConnectionState {
    phase: ConnectionPhase,
    play_uuid: Option<u128>,
}

impl ConnectionState {
    pub closed spec fn spec_play_uuid(&self) -> Option<u128> {
        self.play_uuid
    }

    pub closed spec fn spec_phase(&self) -> PhaseModel {
        self.phase@
    }

    /// The current phase.
    pub fn phase(&self) -> (r: &ConnectionPhase)
        ensures
            r@ == self.spec_phase(),
    {
        &self.phase
    }

    /// A fresh connection, in the Handshake phase.
    pub fn new() -> (r: Self)
        ensures
            r.spec_phase() == PhaseModel::Handshake,
            r.spec_play_uuid() is None,
    {
        ConnectionState { phase: ConnectionPhase::Handshake, play_uuid: None }
    }

    /// Handles one inbound packet in the current phase. `draw` holds the
    /// random values a login start may use.
    pub fn handle_packet(&mut self, packet: &PacketBody, server: &ServerData, draw: &LoginDraw) -> (r:
        Step)
        ensures
            handled_as_spec(
                old(self).spec_phase(),
                outcome_of(r, final(self).spec_phase()),
                packet.id,
                packet.body@,
                server,
                draw,
            ),
            final(self).spec_play_uuid() == match final(self).spec_phase() {
                PhaseModel::Play { uuid, .. } => Some(uuid),
                _ => old(self).spec_play_uuid(),
            },
    {
        let mut phase = ConnectionPhase::Closed;
        core::mem::swap(&mut phase, &mut self.phase);
        let (next, step) = match phase {
            ConnectionPhase::Handshake => handle_handshake(packet),
            ConnectionPhase::Status => {
                let json = generate_json(server.description().as_str(), server.favicon().as_str());
                handle_status(packet, &json)
            },
            ConnectionPhase::Login { player_name, verify_token } => handle_login(
                player_name,
                verify_token,
                packet,
                server,
                draw,
            ),
            ConnectionPhase::Authenticating { .. } => kicked(true, McError::BadPacketId(packet.id)),
            ConnectionPhase::Play { player_name, uuid } => handle_play(player_name, uuid, packet),
            ConnectionPhase::Closed => failed(McError::PleaseDisconnect),
        };
        self.settle((next, step))
    }

    fn settle(&mut self, r: (ConnectionPhase, Step)) -> (step: Step)
        ensures
            final(self).spec_phase() == r.0@,
            step == r.1,
            final(self).spec_play_uuid() == match r.0@ {
                PhaseModel::Play { uuid, .. } => Some(uuid),
                _ => old(self).spec_play_uuid(),
            },
    {
        let (next, step) = r;
        if let ConnectionPhase::Play { uuid, .. } = &next {
            self.play_uuid = Some(*uuid);
        }
        self.phase = next;
        step
    }

    /// Hands over the session service's answer to a connection that is
    /// authenticating.
    pub fn complete_login(&mut self, auth: McResult<u128>) -> (r: Step)
        ensures
            old(self).spec_phase() matches PhaseModel::Authenticating { player_name } ==> outcome_of(
                r,
                final(self).spec_phase(),
            ) == complete_login_outcome(player_name, auth),
            !(old(self).spec_phase() is Authenticating) ==> outcome_of(r, final(self).spec_phase()) == fail(
                McError::PleaseDisconnect,
            ),
            final(self).spec_play_uuid() == match final(self).spec_phase() {
                PhaseModel::Play { uuid, .. } => Some(uuid),
                _ => old(self).spec_play_uuid(),
            },
    {
        let mut phase = ConnectionPhase::Closed;
        core::mem::swap(&mut phase, &mut self.phase);
        let r = match phase {
            ConnectionPhase::Authenticating { player_name } => match auth {
                Err(e) => kicked(true, e),
                Ok(uuid) => {
                    let success = LoginSuccess { uuid: uuid_text(uuid), username: player_name.clone() };
                    match success.encode() {
                        Ok(f) => {
                            let next = ConnectionPhase::Play { player_name: player_name.clone(), uuid };
                            let action = PostPacketAction::EnteredPlayState {
                                player_name,
                                player_uuid: uuid,
                            };
                            finish(next, one_frame(f), action)
                        },
                        Err(e) => kicked(true, e),
                    }
                },
            },
            _ => failed(McError::PleaseDisconnect),
        };
        self.settle(r)
    }

    /// The id to report to the game coordinator when the connection ends:
    /// the one it joined with, and only once.
    pub fn on_disconnect(&mut self) -> (r: Option<u128>)
        ensures
            r == old(self).spec_play_uuid(),
            final(self).spec_play_uuid() is None,
            final(self).spec_phase() == old(self).spec_phase(),
    {
        let r = self.play_uuid;
        self.play_uuid = None;
        r
    }
}

/// The phase table: a well-formed handshake asking for state 1 leads to
/// Status, for 2 to Login, and for anything else ends the connection with
/// `BadNextState`. In Status, a ping ends the connection (in order, after
/// the pong), while a status request never does.
pub proof fn lemma_phase_transitions(
    handshake: Seq<FieldModel>,
    ping: Seq<FieldModel>,
    request_body: Seq<u8>,
    json: Seq<char>,
)
    requires
        fills_layout(Handshake::layout(), handshake),
        fills_layout(Ping::layout(), ping),
    ensures
        ({
            let out = handshake_outcome(Handshake::ID, fields_bytes(handshake));
            &&& handshake[3] == FieldModel::VarInt(1) ==> out.next == PhaseModel::Status
                && out.result is Ok
            &&& handshake[3] == FieldModel::VarInt(2) ==> out.next is Login && out.result is Ok
            &&& forall|x: i32|
                handshake[3] == FieldModel::VarInt(x) && x != 1 && x != 2 ==> #[trigger] fail_kick(
                    false,
                    McError::BadNextState(x),
                ) == out
        }),
        ({
            let out = status_outcome(Ping::ID, fields_bytes(ping), json);
            &&& out.next == PhaseModel::Closed
            &&& out.result == Err::<ActionModel, McError>(McError::PleaseDisconnect)
            &&& out.responses.len() == 1
            &&& frame_of(Pong::ID, ping) == Ok::<Seq<u8>, McError>(out.responses[0])
        }),
        status_outcome(Empty::ID, request_body, json).result != Err::<ActionModel, McError>(
            McError::PleaseDisconnect,
        ),
        frame_of(StatusResponse::ID, seq![FieldModel::Str(json)]) matches Ok(f) ==> status_outcome(
            Empty::ID,
            Seq::empty(),
            json,
        ) == done(PhaseModel::Status, seq![f], ActionModel::Nothing),
{
    lemma_payload_integrity(Empty::layout(), Seq::empty(), Seq::empty(), 0);
    assert(fields_bytes(Seq::<FieldModel>::empty()) == Seq::<u8>::empty());
    lemma_payload_integrity(Handshake::layout(), handshake, Seq::empty(), 0);
    lemma_payload_integrity(Ping::layout(), ping, Seq::empty(), 0);
    assert(kind_of(ping[0]) == FieldKind::Long);
    lemma_frame_fits(Pong::ID, seq![ping[0]]);
    assert(seq![ping[0]] =~= ping);
    assert(kind_of(handshake[3]) == FieldKind::VarInt);
}

/// Which phase may follow which: Status and Login only after Handshake,
/// Authenticating only after Login, Play only after Login or
/// Authenticating; Status, Login and Play may stay; any phase may end.
pub open spec fn may_follow(from: PhaseModel, to: PhaseModel) -> bool {
    match to {
        PhaseModel::Closed => true,
        PhaseModel::Handshake => false,
        PhaseModel::Status => from is Handshake || from is Status,
        PhaseModel::Login { .. } => from is Handshake || from is Login,
        PhaseModel::Authenticating { .. } => from is Login,
        PhaseModel::Play { .. } => from is Login || from is Authenticating || from is Play,
    }
}

proof fn lemma_login_moves_forward(
    out: Outcome,
    player_name: Seq<char>,
    verify_token: Seq<u8>,
    id: i32,
    body: Seq<u8>,
    server: &ServerData,
    draw: &LoginDraw,
)
    requires
        login_handled_as(out, player_name, verify_token, id, body, server, draw),
    ensures
        out.next is Closed || out.next is Login || out.next is Authenticating || out.next is Play,
{
    if id == LoginStart::ID {
        if server.spec_online() {
            let s = choose|s: Result<Option<Seq<u8>>, McError>|
                (s == Err::<Option<Seq<u8>>, McError>(McError::OpenSsl) || s is Ok
                    && s.unwrap() is Some) && out == #[trigger] login_start_outcome(
                    id,
                    body,
                    s,
                    draw.uuid,
                    draw.verify_token@,
                );
        }
    } else if id == EncryptionResponse::ID {
        if let Ok(_) = decode_spec(EncryptionResponse::ID, EncryptionResponse::layout(), id, body) {
            let d = choose|d: Option<(Seq<u8>, Seq<u8>, Seq<u8>)>|
                out == #[trigger] encryption_outcome(player_name, verify_token, d);
        }
    }
}

/// Phases only move forward: whatever packet arrives, the next phase may
/// follow the current one, and finishing a login leads to Play or to the
/// end.
pub proof fn lemma_phases_move_forward(
    phase: PhaseModel,
    out: Outcome,
    id: i32,
    body: Seq<u8>,
    server: &ServerData,
    draw: &LoginDraw,
    player_name: Seq<char>,
    auth: Result<u128, McError>,
)
    ensures
        handled_as_spec(phase, out, id, body, server, draw) ==> may_follow(phase, out.next),
        may_follow(
            PhaseModel::Authenticating { player_name },
            complete_login_outcome(player_name, auth).next,
        ),
{
    if handled_as_spec(phase, out, id, body, server, draw) {
        if let PhaseModel::Login { player_name, verify_token } = phase {
            lemma_login_moves_forward(out, player_name, verify_token, id, body, server, draw);
        }
    }
}

} // verus!
