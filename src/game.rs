//! The game coordinator's player table: who is in the game, and which
//! teleport id and keep-alive token each player still has to confirm.
use vstd::prelude::*;

use std::collections::HashMap;

use crate::connection::{frames_view, kick, kick_frames};
use crate::error::{McError, McResult};
use vstd::utf8::{is_ascii_chars, is_ascii_chars_encode_utf8};

use crate::field::{field_bytes, FieldModel};
use crate::packet::{frame_of, lemma_frame_fits};
use crate::varint::lemma_varint_seq_len;
use crate::protocol::{JoinGame, KeepAlive, PlayerPositionAndLook, PositionField, SpawnPosition};

verus! {

broadcast use vstd::std_specs::hash::group_hash_axioms;

/// The teleport id sent with the first position of every player.
pub const FIRST_TELEPORT_ID: i32 = 1234;

/// One player in the game.
#[derive(Debug)]
pub struct Client {
    pub name: String,
    /// The teleport id sent to the client and not yet confirmed.
    pub next_teleport_id: Option<i32>,
    /// The keep-alive token sent to the client and not yet answered.
    pub pending_keep_alive: Option<i64>,
}

/// Whether a confirmation matches what is pending.
pub open spec fn confirm<T>(pending: Option<T>, actual: T) -> bool {
    pending == Some(actual)
}

/// A matching teleport confirmation clears what was pending, so the same
/// confirmation a second time fails: the table after a successful
/// `verify_teleport` no longer confirms that id.
pub proof fn lemma_teleport_confirmed_once(before: Map<u128, Client>, uuid: u128, id: i32)
    requires
        before.contains_key(uuid),
        confirm(before[uuid].next_teleport_id, id),
    ensures
        ({
            let after = before.insert(uuid, Client { next_teleport_id: None, ..before[uuid] });
            after.contains_key(uuid) && !confirm(after[uuid].next_teleport_id, id)
        }),
{
}

/// A matching keep-alive answer clears the pending token, so the same answer
/// a second time fails.
pub proof fn lemma_keep_alive_confirmed_once(before: Map<u128, Client>, uuid: u128, token: i64)
    requires
        before.contains_key(uuid),
        confirm(before[uuid].pending_keep_alive, token),
    ensures
        ({
            let after = before.insert(uuid, Client { pending_keep_alive: None, ..before[uuid] });
            after.contains_key(uuid) && !confirm(after[uuid].pending_keep_alive, token)
        }),
{
}

impl Client {
    pub fn new(name: String) -> (r: Self)
        ensures
            r.name@ == name@,
            r.next_teleport_id is None,
            r.pending_keep_alive is None,
    {
        Client { name, next_teleport_id: None, pending_keep_alive: None }
    }

    /// Records the teleport id just sent to the client.
    pub fn set_teleport_id(&mut self, teleport_id: i32)
        ensures
            final(self).next_teleport_id == Some(teleport_id),
            final(self).name == old(self).name,
            final(self).pending_keep_alive == old(self).pending_keep_alive,
    {
        self.next_teleport_id = Some(teleport_id);
    }

    /// Checks a teleport confirmation; the pending id is cleared either way.
    pub fn check_teleport_id(&mut self, confirmed: i32) -> (r: McResult<()>)
        ensures
            confirm(old(self).next_teleport_id, confirmed) ==> r is Ok,
            !confirm(old(self).next_teleport_id, confirmed) ==> r == Err::<(), McError>(
                McError::IncorrectTeleportConfirm {
                    expected: old(self).next_teleport_id,
                    actual: confirmed,
                },
            ),
            final(self).next_teleport_id is None,
            final(self).name == old(self).name,
            final(self).pending_keep_alive == old(self).pending_keep_alive,
    {
        let expected = self.next_teleport_id;
        self.next_teleport_id = None;
        match expected {
            Some(id) => if id == confirmed {
                return Ok(());
            },
            None => {},
        }
        Err(McError::IncorrectTeleportConfirm { expected, actual: confirmed })
    }

    /// Records the keep-alive token just sent to the client.
    pub fn set_keep_alive(&mut self, token: i64)
        ensures
            final(self).pending_keep_alive == Some(token),
            final(self).name == old(self).name,
            final(self).next_teleport_id == old(self).next_teleport_id,
    {
        self.pending_keep_alive = Some(token);
    }

    /// Checks a keep-alive answer; the pending token is cleared either way.
    pub fn check_keep_alive(&mut self, token: i64) -> (r: McResult<()>)
        ensures
            confirm(old(self).pending_keep_alive, token) ==> r is Ok,
            !confirm(old(self).pending_keep_alive, token) ==> r == Err::<(), McError>(
                McError::IncorrectKeepAlive(token),
            ),
            final(self).pending_keep_alive is None,
            final(self).name == old(self).name,
            final(self).next_teleport_id == old(self).next_teleport_id,
    {
        let expected = self.pending_keep_alive;
        self.pending_keep_alive = None;
        match expected {
            Some(k) => if k == token {
                return Ok(());
            },
            None => {},
        }
        Err(McError::IncorrectKeepAlive(token))
    }
}

/// The packets that welcome a player: join game, spawn position, and the
/// first position with its teleport id.
pub open spec fn join_frames() -> Seq<Result<Seq<u8>, McError>> {
    seq![
        frame_of(
            JoinGame::ID,
            seq![
                FieldModel::Int(123),
                FieldModel::UByte(0),
                FieldModel::Int(0),
                FieldModel::Long(12_345_678),
                FieldModel::UByte(0),
                FieldModel::Str("default"@),
                FieldModel::VarInt(20),
                FieldModel::Bool(false),
                FieldModel::Bool(true),
            ],
        ),
        frame_of(SpawnPosition::ID, seq![FieldModel::Position(500, 64, -500i32)]),
        frame_of(
            PlayerPositionAndLook::ID,
            seq![
                FieldModel::Double(0x4024_0000_0000_0000),
                FieldModel::Double(0x4059_0000_0000_0000),
                FieldModel::Double(0xc024_0000_0000_0000),
                FieldModel::Float(0),
                FieldModel::Float(0),
                FieldModel::Byte(0),
                FieldModel::VarInt(FIRST_TELEPORT_ID),
            ],
        ),
    ]
}

/// The three welcome frames fit.
proof fn lemma_welcome_frames_fit()
    ensures
        join_frames()[0] is Ok,
        join_frames()[1] is Ok,
        join_frames()[2] is Ok,
{
    reveal_strlit("default");
    assert(is_ascii_chars("default"@));
    is_ascii_chars_encode_utf8("default"@);
    lemma_varint_seq_len(7);
    assert(field_bytes(FieldModel::Str("default"@)).len() == 8);
    let join = seq![
        FieldModel::Int(123),
        FieldModel::UByte(0),
        FieldModel::Int(0),
        FieldModel::Long(12_345_678),
        FieldModel::UByte(0),
        FieldModel::Str("default"@),
        FieldModel::VarInt(20),
        FieldModel::Bool(false),
        FieldModel::Bool(true),
    ];
    lemma_frame_fits(JoinGame::ID, join);
    lemma_frame_fits(SpawnPosition::ID, seq![FieldModel::Position(500, 64, -500i32)]);
    lemma_frame_fits(
        PlayerPositionAndLook::ID,
        seq![
            FieldModel::Double(0x4024_0000_0000_0000),
            FieldModel::Double(0x4059_0000_0000_0000),
            FieldModel::Double(0xc024_0000_0000_0000),
            FieldModel::Float(0),
            FieldModel::Float(0),
            FieldModel::Byte(0),
            FieldModel::VarInt(FIRST_TELEPORT_ID),
        ],
    );
}

/// The frames that announce a failed game message to its player: a play
/// kick, except when the player is not in the game.
pub fn error_kick(err: &McError) -> (r: Vec<Vec<u8>>)
    ensures
        err is NoSuchPlayer ==> frames_view(r@) == Seq::<Seq<u8>>::empty(),
        !(err is NoSuchPlayer) ==> frames_view(r@) == kick_frames(false, *err),
{
    match err {
        McError::NoSuchPlayer(_) => {
            let none: Vec<Vec<u8>> = Vec::new();
            assert(frames_view(none@) =~= Seq::<Seq<u8>>::empty());
            none
        },
        _ => kick(false, err),
    }
}

/// The player table.
pub struct Game {
    clients: HashMap<u128, Client>,
}

impl Game {
    pub closed spec fn players(&self) -> Map<u128, Client> {
        self.clients@
    }

    pub fn new() -> (r: Self)
        ensures
            r.players() == Map::<u128, Client>::empty(),
    {
        Game { clients: HashMap::new() }
    }

    /// Whether a player is in the game.
    pub fn contains(&self, uuid: u128) -> (r: bool)
        ensures
            r == self.players().contains_key(uuid),
    {
        self.clients.contains_key(&uuid)
    }

    /// The number of players in the game.
    pub fn len(&self) -> (r: usize)
        ensures
            r == self.players().len(),
    {
        self.clients.len()
    }

    /// Adds a player and gives the frames that welcome them; the teleport id
    /// of their first position is then pending.
    pub fn add_player(&mut self, uuid: u128, name: String) -> (r: McResult<Vec<Vec<u8>>>)
        ensures
            r is Ok,
            r is Ok ==> {
                let after = final(self).players();
                &&& after.contains_key(uuid)
                &&& after[uuid].name@ == name@
                &&& after[uuid].next_teleport_id == Some(FIRST_TELEPORT_ID)
                &&& after[uuid].pending_keep_alive is None
                &&& after.remove(uuid) == old(self).players().remove(uuid)
            },
            r matches Ok(frames) ==> forall|i: int|
                0 <= i < 3 ==> join_frames()[i] == Ok::<Seq<u8>, McError>(
                    #[trigger] frames_view(frames@)[i],
                ),
            r matches Ok(frames) ==> frames@.len() == 3,
    {
        proof {
            lemma_welcome_frames_fit();
        }
        let join = JoinGame {
            entity_id: 123,
            gamemode: 0,
            dimension: 0,
            hashed_seed: 12_345_678,
            max_players: 0,
            level_type: String::from_str("default"),
            view_distance: 20,
            reduced_debug_info: false,
            enable_respawn_screen: true,
        };
        let spawn = SpawnPosition { location: PositionField::new(500, 64, -500) };
        let look = PlayerPositionAndLook {
            x: 0x4024_0000_0000_0000,
            y: 0x4059_0000_0000_0000,
            z: 0xc024_0000_0000_0000,
            yaw: 0,
            pitch: 0,
            flags: 0,
            teleport_id: FIRST_TELEPORT_ID,
        };
        let mut frames: Vec<Vec<u8>> = Vec::new();
        match join.encode() {
            Ok(f) => frames.push(f),
            Err(e) => return Err(e),
        }
        match spawn.encode() {
            Ok(f) => frames.push(f),
            Err(e) => return Err(e),
        }
        match look.encode() {
            Ok(f) => frames.push(f),
            Err(e) => return Err(e),
        }
        let mut client = Client::new(name);
        client.set_teleport_id(FIRST_TELEPORT_ID);
        self.clients.insert(uuid, client);
        assert(final(self).players().remove(uuid) =~= old(self).players().remove(uuid));
        Ok(frames)
    }

    /// Removes a player; says whether they were in the game.
    pub fn remove_player(&mut self, uuid: u128) -> (r: bool)
        ensures
            r == old(self).players().contains_key(uuid),
            final(self).players() == old(self).players().remove(uuid),
    {
        let removed = self.clients.remove(&uuid);
        removed.is_some()
    }

    /// Checks a player's teleport confirmation.
    pub fn verify_teleport(&mut self, uuid: u128, teleport_id: i32) -> (r: McResult<()>)
        ensures
            !old(self).players().contains_key(uuid) ==> r == Err::<(), McError>(
                McError::NoSuchPlayer(uuid),
            ) && final(self).players() == old(self).players(),
            old(self).players().contains_key(uuid) ==> {
                let c = old(self).players()[uuid];
                &&& confirm(c.next_teleport_id, teleport_id) ==> r is Ok
                &&& !confirm(c.next_teleport_id, teleport_id) ==> r == Err::<(), McError>(
                    McError::IncorrectTeleportConfirm {
                        expected: c.next_teleport_id,
                        actual: teleport_id,
                    },
                )
                &&& final(self).players() == old(self).players().insert(
                    uuid,
                    Client { next_teleport_id: None, ..c },
                )
            },
    {
        match self.clients.remove(&uuid) {
            None => Err(McError::NoSuchPlayer(uuid)),
            Some(mut client) => {
                let r = client.check_teleport_id(teleport_id);
                self.clients.insert(uuid, client);
                assert(final(self).players() =~= old(self).players().insert(
                    uuid,
                    Client { next_teleport_id: None, ..old(self).players()[uuid] },
                ));
                r
            },
        }
    }

    /// Records a keep-alive token sent to a player, giving its frame.
    pub fn issue_keep_alive(&mut self, uuid: u128, token: i64) -> (r: McResult<Vec<u8>>)
        ensures
            !old(self).players().contains_key(uuid) ==> r == Err::<Vec<u8>, McError>(
                McError::NoSuchPlayer(uuid),
            ) && final(self).players() == old(self).players(),
            old(self).players().contains_key(uuid) ==> {
                let c = old(self).players()[uuid];
                &&& r is Ok
                &&& frame_of(KeepAlive::ID, seq![FieldModel::Long(token)]) == Ok::<Seq<u8>, McError>(
                    r.unwrap()@,
                )
                &&& final(self).players() == old(self).players().insert(
                    uuid,
                    Client { pending_keep_alive: Some(token), ..c },
                )
            },
    {
        match self.clients.remove(&uuid) {
            None => Err(McError::NoSuchPlayer(uuid)),
            Some(mut client) => {
                client.set_keep_alive(token);
                self.clients.insert(uuid, client);
                assert(final(self).players() =~= old(self).players().insert(
                    uuid,
                    Client { pending_keep_alive: Some(token), ..old(self).players()[uuid] },
                ));
                proof {
                    lemma_frame_fits(KeepAlive::ID, seq![FieldModel::Long(token)]);
                }
                KeepAlive { keep_alive_id: token }.encode()
            },
        }
    }

    /// Checks a player's keep-alive answer.
    pub fn verify_keep_alive(&mut self, uuid: u128, token: i64) -> (r: McResult<()>)
        ensures
            !old(self).players().contains_key(uuid) ==> r == Err::<(), McError>(
                McError::NoSuchPlayer(uuid),
            ) && final(self).players() == old(self).players(),
            old(self).players().contains_key(uuid) ==> {
                let c = old(self).players()[uuid];
                &&& confirm(c.pending_keep_alive, token) ==> r is Ok
                &&& !confirm(c.pending_keep_alive, token) ==> r == Err::<(), McError>(
                    McError::IncorrectKeepAlive(token),
                )
                &&& final(self).players() == old(self).players().insert(
                    uuid,
                    Client { pending_keep_alive: None, ..c },
                )
            },
    {
        match self.clients.remove(&uuid) {
            None => Err(McError::NoSuchPlayer(uuid)),
            Some(mut client) => {
                let r = client.check_keep_alive(token);
                self.clients.insert(uuid, client);
                assert(final(self).players() =~= old(self).players().insert(
                    uuid,
                    Client { pending_keep_alive: None, ..old(self).players()[uuid] },
                ));
                r
            },
        }
    }
}

} // verus!
