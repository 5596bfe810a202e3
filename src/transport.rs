//! The connection's encryption mode: plaintext until the one upgrade during
//! login, then AES-128 in CFB-8 mode keyed by the 16-byte shared secret,
//! one continuous cipher stream per direction.
//!
//! CFB-8 keeps a 16-byte shift register, seeded with the IV (here the shared
//! secret itself) and then holding the last 16 ciphertext bytes. Each
//! direction keeps its register, so encrypting the frames one by one gives
//! the same bytes as encrypting them all at once.
use vstd::prelude::*;

use openssl::symm::Cipher;

use crate::error::{McError, McResult};

verus! {

/// AES-128-CFB8 encryption of `data` with key `key` and IV `iv`.
pub uninterp spec fn aes_cfb8_encrypt_of(key: Seq<u8>, iv: Seq<u8>, data: Seq<u8>) -> Seq<u8>;

/// AES-128-CFB8 decryption of `data` with key `key` and IV `iv`.
pub uninterp spec fn aes_cfb8_decrypt_of(key: Seq<u8>, iv: Seq<u8>, data: Seq<u8>) -> Seq<u8>;

/// Relies on `openssl::symm::encrypt` with `Cipher::aes_128_cfb8()`: with a
/// 16-byte key and a 16-byte IV the steps of `symm::cipher` (`Crypter::new`,
/// `update`, `finalize`) succeed, and the input length must fit a C `int`.
/// A fresh context is used on every call, so the result depends on the key,
/// the IV and the data alone.
#[verifier::external_body]
fn aes_cfb8_encrypt(key: &[u8], iv: &[u8], data: &[u8]) -> (r: Option<Vec<u8>>)
    requires
        key@.len() == 16,
        iv@.len() == 16,
        data@.len() <= i32::MAX,
    ensures
        r is Some,
        r matches Some(c) ==> c@ == aes_cfb8_encrypt_of(key@, iv@, data@),
{
    openssl::symm::encrypt(Cipher::aes_128_cfb8(), key, Some(iv), data).ok()
}

/// Relies on `openssl::symm::decrypt` with `Cipher::aes_128_cfb8()`, under
/// the same conditions as `aes_cfb8_encrypt`.
#[verifier::external_body]
fn aes_cfb8_decrypt(key: &[u8], iv: &[u8], data: &[u8]) -> (r: Option<Vec<u8>>)
    requires
        key@.len() == 16,
        iv@.len() == 16,
        data@.len() <= i32::MAX,
    ensures
        r is Some,
        r matches Some(p) ==> p@ == aes_cfb8_decrypt_of(key@, iv@, data@),
{
    openssl::symm::decrypt(Cipher::aes_128_cfb8(), key, Some(iv), data).ok()
}

/// The CFB-8 register after `ciphertext` went through it: the last 16 bytes
/// of the old register followed by the ciphertext.
pub open spec fn next_register(register: Seq<u8>, ciphertext: Seq<u8>) -> Seq<u8> {
    let all = register + ciphertext;
    all.subrange(all.len() - 16, all.len() as int)
}

fn shift_register(register: &Vec<u8>, ciphertext: &[u8]) -> (r: Vec<u8>)
    requires
        register@.len() == 16,
    ensures
        r@ == next_register(register@, ciphertext@),
        r@.len() == 16,
{
    let mut out: Vec<u8> = Vec::new();
    let n = ciphertext.len();
    let mut i: usize = 0;
    while i < 16
        invariant
            i <= 16,
            register@.len() == 16,
            n == ciphertext@.len(),
            out@ == (register@ + ciphertext@).subrange(
                (register@ + ciphertext@).len() - 16,
                (register@ + ciphertext@).len() - 16 + i,
            ),
        decreases 16 - i,
    {
        let ghost all = register@ + ciphertext@;
        let b = if n >= 16 - i {
            ciphertext[n - (16 - i)]
        } else {
            register[n + i]
        };
        assert(b == all[all.len() - 16 + i]);
        out.push(b);
        assert(out@ =~= all.subrange(all.len() - 16, all.len() - 16 + i + 1));
        i = i + 1;
    }
    out
}

fn copy_key(key: &Vec<u8>) -> (r: Vec<u8>)
    ensures
        r@ == key@,
{
    let r = crate::field::copy_range(key.as_slice(), 0, key.len());
    assert(key@.subrange(0, key@.len() as int) =~= key@);
    r
}

/// The encryption mode shared by a connection's reading and writing sides.
pub enum Encryption {
    Plaintext,
    Encrypted { shared_secret: Vec<u8>, send_register: Vec<u8>, receive_register: Vec<u8> },
}

impl Encryption {
    /// Every connection starts in plaintext.
    pub fn new() -> (r: Self)
        ensures
            !r.is_encrypted(),
            r.wf(),
    {
        Encryption::Plaintext
    }

    pub open spec fn is_encrypted(&self) -> bool {
        self is Encrypted
    }

    pub open spec fn secret(&self) -> Seq<u8> {
        match self {
            Encryption::Encrypted { shared_secret, .. } => shared_secret@,
            Encryption::Plaintext => Seq::empty(),
        }
    }

    /// The register of the outgoing stream.
    pub open spec fn send_register(&self) -> Seq<u8> {
        match self {
            Encryption::Encrypted { send_register, .. } => send_register@,
            Encryption::Plaintext => Seq::empty(),
        }
    }

    /// The register of the incoming stream.
    pub open spec fn receive_register(&self) -> Seq<u8> {
        match self {
            Encryption::Encrypted { receive_register, .. } => receive_register@,
            Encryption::Plaintext => Seq::empty(),
        }
    }

    /// Once encrypted, both registers are 16 bytes.
    pub open spec fn wf(&self) -> bool {
        self.is_encrypted() && self.secret().len() == 16 ==> self.send_register().len() == 16
            && self.receive_register().len() == 16
    }

    /// Switches to the cipher keyed by `shared_secret`, both registers
    /// seeded with it. This happens at most once: on an encrypted connection
    /// it changes nothing and says `false`.
    pub fn upgrade(&mut self, shared_secret: Vec<u8>) -> (r: bool)
        requires
            old(self).wf(),
        ensures
            final(self).wf(),
            r == !old(self).is_encrypted(),
            r ==> final(self).is_encrypted() && final(self).secret() == shared_secret@
                && final(self).send_register() == shared_secret@
                && final(self).receive_register() == shared_secret@,
            !r ==> *final(self) == *old(self),
    {
        match self {
            Encryption::Plaintext => {
                let send_register = copy_key(&shared_secret);
                let receive_register = copy_key(&shared_secret);
                *self = Encryption::Encrypted { shared_secret, send_register, receive_register };
                true
            },
            Encryption::Encrypted { .. } => false,
        }
    }

    /// What goes on the wire for the outgoing bytes `data`: the bytes
    /// themselves in plaintext; once upgraded, the next bytes of the
    /// outgoing cipher stream, whose register then moves on.
    pub fn seal(&mut self, data: &[u8]) -> (r: McResult<Vec<u8>>)
        requires
            old(self).wf(),
        ensures
            final(self).wf(),
            !old(self).is_encrypted() ==> r is Ok && r.unwrap()@ == data@ && *final(self)
                == *old(self),
            old(self).is_encrypted() && old(self).secret().len() == 16 && data@.len()
                <= i32::MAX ==> {
                &&& r is Ok
                &&& r.unwrap()@ == aes_cfb8_encrypt_of(
                    old(self).secret(),
                    old(self).send_register(),
                    data@,
                )
                &&& final(self).is_encrypted()
                &&& final(self).secret() == old(self).secret()
                &&& final(self).receive_register() == old(self).receive_register()
                &&& final(self).send_register() == next_register(
                    old(self).send_register(),
                    r.unwrap()@,
                )
            },
            old(self).is_encrypted() && !(old(self).secret().len() == 16 && data@.len()
                <= i32::MAX) ==> r == Err::<Vec<u8>, McError>(McError::OpenSsl) && *final(self)
                == *old(self),
    {
        match self {
            Encryption::Plaintext => {
                let copy = crate::field::copy_range(data, 0, data.len());
                assert(data@.subrange(0, data@.len() as int) =~= data@);
                Ok(copy)
            },
            Encryption::Encrypted { shared_secret, send_register, .. } => {
                if shared_secret.len() != 16 || data.len() > 0x7fff_ffff {
                    return Err(McError::OpenSsl);
                }
                match aes_cfb8_encrypt(shared_secret.as_slice(), send_register.as_slice(), data) {
                    Some(c) => {
                        *send_register = shift_register(send_register, c.as_slice());
                        Ok(c)
                    },
                    None => Err(McError::OpenSsl),
                }
            },
        }
    }

    /// The incoming bytes `data` as sent: themselves in plaintext; once
    /// upgraded, the decryption of the next bytes of the incoming cipher
    /// stream, whose register then moves on.
    pub fn open(&mut self, data: &[u8]) -> (r: McResult<Vec<u8>>)
        requires
            old(self).wf(),
        ensures
            final(self).wf(),
            !old(self).is_encrypted() ==> r is Ok && r.unwrap()@ == data@ && *final(self)
                == *old(self),
            old(self).is_encrypted() && old(self).secret().len() == 16 && data@.len()
                <= i32::MAX ==> {
                &&& r is Ok
                &&& r.unwrap()@ == aes_cfb8_decrypt_of(
                    old(self).secret(),
                    old(self).receive_register(),
                    data@,
                )
                &&& final(self).is_encrypted()
                &&& final(self).secret() == old(self).secret()
                &&& final(self).send_register() == old(self).send_register()
                &&& final(self).receive_register() == next_register(
                    old(self).receive_register(),
                    data@,
                )
            },
            old(self).is_encrypted() && !(old(self).secret().len() == 16 && data@.len()
                <= i32::MAX) ==> r == Err::<Vec<u8>, McError>(McError::OpenSsl) && *final(self)
                == *old(self),
    {
        match self {
            Encryption::Plaintext => {
                let copy = crate::field::copy_range(data, 0, data.len());
                assert(data@.subrange(0, data@.len() as int) =~= data@);
                Ok(copy)
            },
            Encryption::Encrypted { shared_secret, receive_register, .. } => {
                if shared_secret.len() != 16 || data.len() > 0x7fff_ffff {
                    return Err(McError::OpenSsl);
                }
                match aes_cfb8_decrypt(shared_secret.as_slice(), receive_register.as_slice(), data) {
                    Some(p) => {
                        *receive_register = shift_register(receive_register, data);
                        Ok(p)
                    },
                    None => Err(McError::OpenSsl),
                }
            },
        }
    }
}

} // verus!
