//! What the server holds for every connection: its RSA key pair, whether it
//! authenticates players, and what its status reply shows.
use vstd::prelude::*;

use openssl::error::ErrorStack;
use openssl::pkey::Private;
use openssl::rsa::Rsa;

use crate::error::{McError, McResult};

verus! {

#[verifier::external_type_specification]
#[verifier::external_body]
#[verifier::reject_recursive_types(T)]
pub struct ExRsa<T>(Rsa<T>);

#[verifier::external_type_specification]
#[verifier::external_body]
pub struct ExPrivate(Private);

#[verifier::external_type_specification]
#[verifier::external_body]
pub struct ExErrorStack(ErrorStack);

/// Relies on `openssl::rsa::Rsa::generate`: a fresh key pair of `bits` bits.
#[verifier::external_body]
fn rsa_generate(bits: u32) -> (r: Result<Rsa<Private>, ErrorStack>) {
    Rsa::generate(bits)
}

/// Relies on `openssl::rsa::RsaRef::public_key_to_der`: the DER encoding of
/// the public half of the key.
#[verifier::external_body]
fn rsa_public_key_der(key: &Rsa<Private>) -> (r: Result<Vec<u8>, ErrorStack>) {
    key.public_key_to_der()
}

/// Relies on `openssl::rsa::RsaRef::private_decrypt` with PKCS#1 padding;
/// the output buffer is the key's size, as that function asks.
#[verifier::external_body]
fn rsa_private_decrypt(key: &Rsa<Private>, ciphertext: &[u8]) -> (r: Result<Vec<u8>, ErrorStack>)
    requires
        ciphertext@.len() <= i32::MAX,
{
    let mut plaintext = vec![0u8; key.size() as usize];
    let length = key.private_decrypt(ciphertext, &mut plaintext, openssl::rsa::Padding::PKCS1)?;
    plaintext.truncate(length);
    Ok(plaintext)
}

/// Whether the server authenticates players, with its public key if so.
pub enum OnlineStatus {
    Online { public_key: Vec<u8> },
    Offline,
}

/// The server's key pair and settings.
pub struct ServerData {
    rsa_key: Rsa<Private>,
    online: bool,
    description: String,
    favicon: String,
}

impl ServerData {
    pub closed spec fn spec_online(&self) -> bool {
        self.online
    }

    pub closed spec fn spec_description(&self) -> Seq<char> {
        self.description@
    }

    pub closed spec fn spec_favicon(&self) -> Seq<char> {
        self.favicon@
    }

    /// A server with a fresh 1024-bit key; `online` says whether players are
    /// authenticated, `description` and `favicon` (base64 PNG) go into the
    /// status reply.
    pub fn new(online: bool, description: String, favicon: String) -> (r: McResult<Self>)
        ensures
            r matches Ok(s) ==> s.spec_online() == online && s.spec_description()
                == description@ && s.spec_favicon() == favicon@,
            r is Err ==> r == Err::<ServerData, McError>(McError::OpenSsl),
    {
        match rsa_generate(1024) {
            Ok(rsa_key) => Ok(ServerData { rsa_key, online, description, favicon }),
            Err(_) => Err(McError::OpenSsl),
        }
    }

    /// The public key, DER-encoded.
    pub fn public_key(&self) -> (r: McResult<Vec<u8>>)
        ensures
            r is Err ==> r == Err::<Vec<u8>, McError>(McError::OpenSsl),
    {
        match rsa_public_key_der(&self.rsa_key) {
            Ok(der) => Ok(der),
            Err(_) => Err(McError::OpenSsl),
        }
    }

    /// Decrypts with the private key (PKCS#1 padding). A ciphertext longer
    /// than a C `int` can count is refused.
    pub fn decrypt(&self, ciphertext: &[u8]) -> (r: McResult<Vec<u8>>)
        ensures
            ciphertext@.len() > i32::MAX ==> r == Err::<Vec<u8>, McError>(McError::OpenSsl),
            r is Err ==> r == Err::<Vec<u8>, McError>(McError::OpenSsl),
    {
        if ciphertext.len() > 0x7fff_ffff {
            return Err(McError::OpenSsl);
        }
        match rsa_private_decrypt(&self.rsa_key, ciphertext) {
            Ok(plain) => Ok(plain),
            Err(_) => Err(McError::OpenSsl),
        }
    }

    /// Online with the public key, or offline.
    pub fn online_status(&self) -> (r: McResult<OnlineStatus>)
        ensures
            !self.spec_online() ==> r matches Ok(OnlineStatus::Offline),
            self.spec_online() ==> r matches Ok(OnlineStatus::Online { .. }) || r == Err::<
                OnlineStatus,
                McError,
            >(McError::OpenSsl),
    {
        if self.online {
            match self.public_key() {
                Ok(public_key) => Ok(OnlineStatus::Online { public_key }),
                Err(e) => Err(e),
            }
        } else {
            Ok(OnlineStatus::Offline)
        }
    }

    pub fn description(&self) -> (r: &String)
        ensures
            r@ == self.spec_description(),
    {
        &self.description
    }

    pub fn favicon(&self) -> (r: &String)
        ensures
            r@ == self.spec_favicon(),
    {
        &self.favicon
    }
}

} // verus!
