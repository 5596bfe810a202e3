//! Player authentication: the session hash sent to the session service, the
//! check of its answer, and the player ids.
use vstd::prelude::*;
use vstd::utf8::{encode_utf8, encode_utf8_decode_utf8};

use vstd::arithmetic::power::pow;

use crate::codec::{be_value, byte_cap};
use crate::error::{McError, McResult};

verus! {

/// The SHA-1 digest of a byte sequence.
pub uninterp spec fn sha1_of(data: Seq<u8>) -> Seq<u8>;

/// The integer that big-endian two's-complement bytes write.
pub open spec fn signed_be_value(bytes: Seq<u8>) -> int {
    if bytes.len() > 0 && bytes[0] >= 0x80 {
        be_value(bytes) - byte_cap(bytes.len())
    } else {
        be_value(bytes) as int
    }
}

/// The lowercase hexadecimal digits of `n`, most significant first, with
/// no leading zeros (`0` for zero).
pub open spec fn hex_digits(n: nat) -> Seq<char>
    decreases n,
{
    if n < 16 {
        seq!["0123456789abcdef"@[n as int]]
    } else {
        hex_digits(n / 16).push("0123456789abcdef"@[(n % 16) as int])
    }
}

/// Lowercase hexadecimal text of a big-endian two's-complement integer,
/// with a leading `-` when negative.
pub open spec fn signed_hex_of(bytes: Seq<u8>) -> Seq<char> {
    let v = signed_be_value(bytes);
    if v < 0 {
        seq!['-'] + hex_digits((-v) as nat)
    } else {
        hex_digits(v as nat)
    }
}

/// Index among the 32 hexadecimal digits of position `p` of the
/// hyphenated text.
pub open spec fn digit_index(p: int) -> int {
    if p < 8 {
        p
    } else if p < 13 {
        p - 1
    } else if p < 18 {
        p - 2
    } else if p < 23 {
        p - 3
    } else {
        p - 4
    }
}

/// The hyphenated, uppercase text of a 128-bit id: 32 hexadecimal digits,
/// most significant first, in groups of 8, 4, 4, 4 and 12.
pub open spec fn hyphenated_of(id: u128) -> Seq<char> {
    Seq::new(
        36,
        |p: int|
            if p == 8 || p == 13 || p == 18 || p == 23 {
                '-'
            } else {
                "0123456789ABCDEF"@[(id as int / pow(16, (31 - digit_index(p)) as nat)) % 16]
            },
    )
}

/// The 128-bit id that a text names, if it is one.
pub uninterp spec fn uuid_parse_of(text: Seq<char>) -> Option<u128>;

/// Relies on `openssl::sha::sha1`: the 20-byte SHA-1 digest of `data`.
#[verifier::external_body]
fn sha1_digest(data: &[u8]) -> (r: Vec<u8>)
    ensures
        r@ == sha1_of(data@),
        r@.len() == 20,
{
    openssl::sha::sha1(data).to_vec()
}

/// Relies on `num::BigInt::from_signed_bytes_be` and
/// `num::BigInt::to_str_radix(16)`: the digest read as a signed integer and
/// written in lowercase hexadecimal.
#[verifier::external_body]
fn signed_hex(bytes: &[u8]) -> (r: String)
    ensures
        r@ == signed_hex_of(bytes@),
{
    num::BigInt::from_signed_bytes_be(bytes).to_str_radix(16)
}

/// Relies on `uuid::Uuid::from_u128` and `uuid::fmt::Hyphenated::encode_upper`
/// into a buffer of `Hyphenated::LENGTH` (36) bytes.
#[verifier::external_body]
fn hyphenated_upper(id: u128) -> (r: String)
    ensures
        r@ == hyphenated_of(id),
{
    let mut buf = [0u8; uuid::fmt::Hyphenated::LENGTH];
    uuid::Uuid::from_u128(id).hyphenated().encode_upper(&mut buf).to_string()
}

/// Relies on `uuid::Uuid::parse_str` and `uuid::Uuid::as_u128`.
#[verifier::external_body]
fn parse_uuid(text: &str) -> (r: Option<u128>)
    ensures
        r == uuid_parse_of(text@),
{
    uuid::Uuid::parse_str(text).ok().map(|u| u.as_u128())
}

/// The bytes of a random (version 4, RFC 4122 variant) id drawn as `b`:
/// the high nibble of byte 6 is the version 4, the two high bits of byte 8
/// are `10`.
pub open spec fn v4_bytes(b: Seq<u8>) -> Seq<u8> {
    b.update(6, (b[6] % 16 + 0x40) as u8).update(8, (b[8] % 64 + 0x80) as u8)
}

/// Relies on `uuid::Builder::from_random_bytes(..).into_uuid()` and
/// `uuid::Uuid::as_u128`: the id whose big-endian bytes are the drawn bytes
/// with the version and variant bits set.
#[verifier::external_body]
fn uuid_from_random_bytes(bytes: [u8; 16]) -> (r: u128)
    ensures
        r as nat == be_value(v4_bytes(bytes@)),
{
    uuid::Builder::from_random_bytes(bytes).into_uuid().as_u128()
}

/// Draws a random player id from 16 random bytes.
pub fn random_uuid() -> (r: Option<u128>)
    ensures
        r matches Some(u) ==> exists|b: Seq<u8>| b.len() == 16 && u as nat == be_value(v4_bytes(b)),
{
    let drawn = match random_bytes(16) {
        Some(b) => b,
        None => return None,
    };
    let mut bytes = [0u8; 16];
    let mut i: usize = 0;
    while i < 16
        invariant
            i <= 16,
            drawn@.len() == 16,
            forall|j: int| 0 <= j < i ==> bytes@[j] == drawn@[j],
        decreases 16 - i,
    {
        bytes[i] = drawn[i];
        i = i + 1;
    }
    let u = uuid_from_random_bytes(bytes);
    assert(bytes@.len() == 16);
    Some(u)
}

/// Relies on `openssl::rand::rand_bytes`: fills a buffer of `len` bytes with
/// random bytes.
#[verifier::external_body]
pub(crate) fn random_bytes(len: usize) -> (r: Option<Vec<u8>>)
    requires
        len <= i32::MAX,
    ensures
        r matches Some(b) ==> b@.len() == len,
{
    let mut buf = vec![0u8; len];
    openssl::rand::rand_bytes(&mut buf).ok().map(|_| buf)
}

/// The session hash of a login: the signed hexadecimal SHA-1 of the server
/// id's bytes, the shared secret and the public key, in that order.
pub open spec fn session_hash(server_id: Seq<char>, shared_secret: Seq<u8>, public_key: Seq<u8>) -> Seq<
    char,
> {
    signed_hex_of(sha1_of(encode_utf8(server_id) + shared_secret + public_key))
}

/// Computes the session hash sent to the session service.
pub fn generate_hash(server_id: &str, shared_secret: &[u8], public_key: &[u8]) -> (r: String)
    ensures
        r@ == session_hash(server_id@, shared_secret@, public_key@),
{
    let mut data: Vec<u8> = Vec::new();
    data.extend_from_slice(server_id.as_bytes());
    data.extend_from_slice(shared_secret);
    data.extend_from_slice(public_key);
    assert(data@ =~= encode_utf8(server_id@) + shared_secret@ + public_key@);
    let digest = sha1_digest(data.as_slice());
    signed_hex(digest.as_slice())
}

/// The hyphenated, uppercase text of a player id.
pub fn uuid_text(id: u128) -> (r: String)
    ensures
        r@ == hyphenated_of(id),
{
    hyphenated_upper(id)
}

/// Whether two strings hold the same characters.
pub fn str_equal(a: &str, b: &str) -> (r: bool)
    ensures
        r == (a@ == b@),
{
    let x = a.as_bytes();
    let y = b.as_bytes();
    proof {
        encode_utf8_decode_utf8(a@);
        encode_utf8_decode_utf8(b@);
    }
    if x.len() != y.len() {
        return false;
    }
    let mut i: usize = 0;
    while i < x.len()
        invariant
            i <= x@.len() == y@.len(),
            x@ == encode_utf8(a@),
            y@ == encode_utf8(b@),
            forall|j: int| 0 <= j < i ==> x@[j] == y@[j],
        decreases x@.len() - i,
    {
        if x[i] != y[i] {
            return false;
        }
        i = i + 1;
    }
    assert(x@ =~= y@);
    true
}

/// What the session service's answer means: the HTTP status, and the `id`
/// and `name` strings of its JSON object (`None` where absent or not a
/// string, or where the body is no JSON object).
pub open spec fn auth_outcome(
    player_name: Seq<char>,
    status: u16,
    id: Option<Seq<char>>,
    name: Option<Seq<char>>,
) -> Result<u128, McError> {
    if !(200 <= status < 300) {
        Err(McError::UnexpectedAuthResponse(status))
    } else {
        match (id, name) {
            (Some(id), Some(name)) => if name != player_name {
                Err(McError::BadAuthResponse)
            } else {
                match uuid_parse_of(id) {
                    Some(u) => Ok(u),
                    None => Err(McError::BadAuthResponse),
                }
            },
            _ => Err(McError::BadAuthResponse),
        }
    }
}

/// Checks the session service's answer for `player_name`, giving the
/// player's id.
pub fn check_auth_response(
    player_name: &str,
    status: u16,
    id: Option<String>,
    name: Option<String>,
) -> (r: McResult<u128>)
    ensures
        r == auth_outcome(
            player_name@,
            status,
            match id {
                Some(s) => Some(s@),
                None => None,
            },
            match name {
                Some(s) => Some(s@),
                None => None,
            },
        ),
{
    if status < 200 || status >= 300 {
        return Err(McError::UnexpectedAuthResponse(status));
    }
    match (id, name) {
        (Some(id), Some(name)) => {
            if !str_equal(name.as_str(), player_name) {
                return Err(McError::BadAuthResponse);
            }
            match parse_uuid(id.as_str()) {
                Some(u) => Ok(u),
                None => Err(McError::BadAuthResponse),
            }
        },
        _ => Err(McError::BadAuthResponse),
    }
}

} // verus!
