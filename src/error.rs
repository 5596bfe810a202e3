use vstd::prelude::*;

verus! {

/// Every way in which handling one connection can fail.
///
/// None of these is fatal to the process: each one ends only the connection
/// on which it arose.
#[derive(Debug, Clone, PartialEq, Eq, Structural)]
pub enum McError {
    /// The input ended in the middle of a value.
    UnexpectedEof,
    /// A frame length outside `1..=65535`, or a frame too short for its packet id.
    MalformedPacket(i32),
    /// A packet id that the current phase does not accept.
    BadPacketId(i32),
    /// An orderly end of the connection; not a failure.
    PleaseDisconnect,
    /// The cryptographic library reported a failure.
    OpenSsl,
    /// The verify token sent back by the client is not the one issued.
    VerifyTokenMismatch,
    /// The session service answered with an unusable body.
    BadAuthResponse,
    /// The session service answered with an unexpected HTTP status.
    UnexpectedAuthResponse(u16),
    /// No player with this id is in the game.
    NoSuchPlayer(u128),
    /// A teleport confirmation that does not match the pending teleport id.
    IncorrectTeleportConfirm { expected: Option<i32>, actual: i32 },
    /// A keep-alive response that does not match the pending token.
    IncorrectKeepAlive(i64),
    /// A handshake asking for a phase other than status (1) or login (2).
    BadNextState(i32),
    /// A VarInt longer than five bytes, or not in its shortest form.
    BadVarInt,
    /// A string whose bytes are not UTF-8.
    BadString,
    /// A boolean byte other than 0 or 1.
    BadBool,
    /// A negative length prefix.
    BadLength(i32),
    /// A packet decoded against the layout of another id.
    UnexpectedPacket { expected: i32, actual: i32 },
    /// A payload whose length differs from what its fields take.
    FullPacketNotRead { length: usize, read: usize },
    /// A client-bound packet that does not fit one frame.
    PacketTooLarge,
}

pub type McResult<T> = Result<T, McError>;

/// The human-readable text of an error, as a kick reason shows it.
pub open spec fn error_text(e: McError) -> Seq<char> {
    match e {
        McError::UnexpectedEof => "Unexpected end of input"@,
        McError::MalformedPacket(_) => "Malformed packet length"@,
        McError::BadPacketId(_) => "Unexpected packet id"@,
        McError::PleaseDisconnect => "Orderly disconnection, have a nice day"@,
        McError::OpenSsl => "Cryptography failure"@,
        McError::VerifyTokenMismatch => "Verify token mismatch"@,
        McError::BadAuthResponse => "Unexpected response from the session service"@,
        McError::UnexpectedAuthResponse(_) => "Unexpected status from the session service"@,
        McError::NoSuchPlayer(_) => "No such player"@,
        McError::IncorrectTeleportConfirm { .. } => "Incorrect teleport confirmation"@,
        McError::IncorrectKeepAlive(_) => "Incorrect keep-alive response"@,
        McError::BadNextState(_) => "Invalid next state"@,
        McError::BadVarInt => "Malformed VarInt"@,
        McError::BadString => "String is not UTF-8"@,
        McError::BadBool => "Malformed boolean"@,
        McError::BadLength(_) => "Negative length"@,
        McError::UnexpectedPacket { .. } => "Unexpected packet"@,
        McError::FullPacketNotRead { .. } => "Packet length does not match its fields"@,
        McError::PacketTooLarge => "Packet too large"@,
    }
}

impl McError {
    /// The human-readable text of this error.
    pub fn message(&self) -> (r: String)
        ensures
            r@ == error_text(*self),
    {
        match self {
            McError::UnexpectedEof => String::from_str("Unexpected end of input"),
            McError::MalformedPacket(_) => String::from_str("Malformed packet length"),
            McError::BadPacketId(_) => String::from_str("Unexpected packet id"),
            McError::PleaseDisconnect => String::from_str("Orderly disconnection, have a nice day"),
            McError::OpenSsl => String::from_str("Cryptography failure"),
            McError::VerifyTokenMismatch => String::from_str("Verify token mismatch"),
            McError::BadAuthResponse => String::from_str("Unexpected response from the session service"),
            McError::UnexpectedAuthResponse(_) => String::from_str("Unexpected status from the session service"),
            McError::NoSuchPlayer(_) => String::from_str("No such player"),
            McError::IncorrectTeleportConfirm { .. } => String::from_str("Incorrect teleport confirmation"),
            McError::IncorrectKeepAlive(_) => String::from_str("Incorrect keep-alive response"),
            McError::BadNextState(_) => String::from_str("Invalid next state"),
            McError::BadVarInt => String::from_str("Malformed VarInt"),
            McError::BadString => String::from_str("String is not UTF-8"),
            McError::BadBool => String::from_str("Malformed boolean"),
            McError::BadLength(_) => String::from_str("Negative length"),
            McError::UnexpectedPacket { .. } => String::from_str("Unexpected packet"),
            McError::FullPacketNotRead { .. } => String::from_str("Packet length does not match its fields"),
            McError::PacketTooLarge => String::from_str("Packet too large"),
        }
    }
}

} // verus!
