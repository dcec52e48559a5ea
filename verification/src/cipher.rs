//! The message cipher: a framed message under AES-256-CBC with a fresh
//! initialisation vector, which is stored in front of the ciphertext.
//!
//! Encryption hands back only what it has itself decrypted to the frame it
//! started from, so every stored message opens again under the key that
//! sealed it. CBC carries no authentication tag: a changed ciphertext is
//! rejected where the padding or the frame no longer fits, and not otherwise.

use crate::bytes::{append_bytes, constant_time_eq, copy_bytes, copy_range};
use crate::error::Error;
use crate::message::{decode, encode, frame, framable, parsed, RawMessage, RawMessageView};
use crate::primitives::{
    aes_cbc_decrypt, aes_cbc_decrypted, aes_cbc_encrypt, aes_cbc_encrypted, random_bytes,
    AES_BLOCK_LEN, AES_KEY_LEN, OPENSSL_MAX_LEN,
};
use vstd::prelude::*;

verus! {

/// A message as it is stored: opaque without the conversation key.
#[derive(Clone, Debug, PartialEq, Eq)]
pub struct EncryptedMessage {
    pub data: Vec<u8>,
}

impl View for EncryptedMessage {
    type V = Seq<u8>;

    open spec fn view(&self) -> Seq<u8> {
        self.data@
    }
}

/// The stored bytes for `m` under `key` with the initialisation vector `iv`:
/// the vector, then the ciphertext of the frame. `None` where the key or the
/// vector has the wrong length, the frame is too long, the cipher fails, or
/// the ciphertext does not decrypt to the frame again.
pub open spec fn sealed(m: RawMessageView, key: Seq<u8>, iv: Seq<u8>) -> Option<Seq<u8>> {
    if key.len() != AES_KEY_LEN || iv.len() != AES_BLOCK_LEN || !framable(m) {
        None
    } else {
        match aes_cbc_encrypted(key, iv, frame(m)) {
            Some(body) => if body.len() + AES_BLOCK_LEN <= OPENSSL_MAX_LEN && aes_cbc_decrypted(
                key,
                iv,
                body,
            ) == Some(frame(m)) {
                Some(iv + body)
            } else {
                None
            },
            None => None,
        }
    }
}

/// The message that the stored bytes `data` hold under `key`. `None` where the
/// key has the wrong length, the data is shorter than an initialisation
/// vector, the cipher fails, or the plaintext is no frame.
pub open spec fn opened(data: Seq<u8>, key: Seq<u8>) -> Option<RawMessageView> {
    if key.len() != AES_KEY_LEN || data.len() < AES_BLOCK_LEN || data.len() > OPENSSL_MAX_LEN {
        None
    } else {
        match aes_cbc_decrypted(
            key,
            data.subrange(0, AES_BLOCK_LEN as int),
            data.subrange(AES_BLOCK_LEN as int, data.len() as int),
        ) {
            Some(plain) => parsed(plain),
            None => None,
        }
    }
}

/// Whatever was sealed opens, under the same key, to the message that was sealed.
pub proof fn law_sealed_opens(m: RawMessageView, key: Seq<u8>, iv: Seq<u8>)
    requires
        sealed(m, key, iv) is Some,
    ensures
        opened(sealed(m, key, iv).unwrap(), key) == Some(m),
{
    let body = aes_cbc_encrypted(key, iv, frame(m)).unwrap();
    let data = iv + body;
    assert(data.subrange(0, AES_BLOCK_LEN as int) =~= iv);
    assert(data.subrange(AES_BLOCK_LEN as int, data.len() as int) =~= body);
    crate::message::lemma_parse_frame(m);
}

/// Decryption is all or nothing: what opens to a message decrypts to exactly
/// the frame of that message.
pub proof fn law_decrypt_is_all_or_nothing(data: Seq<u8>, key: Seq<u8>)
    requires
        opened(data, key) is Some,
    ensures
        aes_cbc_decrypted(
            key,
            data.subrange(0, AES_BLOCK_LEN as int),
            data.subrange(AES_BLOCK_LEN as int, data.len() as int),
        ) == Some(frame(opened(data, key).unwrap())),
{
    let plain = aes_cbc_decrypted(
        key,
        data.subrange(0, AES_BLOCK_LEN as int),
        data.subrange(AES_BLOCK_LEN as int, data.len() as int),
    ).unwrap();
    crate::message::lemma_frame_parsed(plain);
}

/// Encrypts `message` under `key` with the initialisation vector `iv`.
///
/// Fails with `EncryptFailure` exactly where [`sealed`] is `None`.
pub fn encrypt_with_iv(message: &RawMessage, key: &[u8], iv: &[u8]) -> (out: Result<
    EncryptedMessage,
    Error,
>)
    ensures
        sealed(message@, key@, iv@) matches Some(data) ==> (out matches Ok(e) && e@ == data),
        sealed(message@, key@, iv@) is None ==> out == Err::<EncryptedMessage, Error>(
            Error::EncryptFailure,
        ),
{
    if key.len() != AES_KEY_LEN || iv.len() != AES_BLOCK_LEN {
        return Err(Error::EncryptFailure);
    }
    let plain = match encode(message) {
        Some(p) => p,
        None => {
            return Err(Error::EncryptFailure);
        },
    };
    let body = match aes_cbc_encrypt(key, iv, plain.as_slice()) {
        Some(b) => b,
        None => {
            return Err(Error::EncryptFailure);
        },
    };
    if body.len() > OPENSSL_MAX_LEN - AES_BLOCK_LEN {
        return Err(Error::EncryptFailure);
    }
    let again = match aes_cbc_decrypt(key, iv, body.as_slice()) {
        Some(a) => a,
        None => {
            return Err(Error::EncryptFailure);
        },
    };
    if !constant_time_eq(again.as_slice(), plain.as_slice()) {
        return Err(Error::EncryptFailure);
    }
    let mut data = copy_bytes(iv);
    append_bytes(&mut data, body.as_slice());
    Ok(EncryptedMessage { data })
}

/// Encrypts `message` under `key` with an initialisation vector drawn from
/// the system's random source.
///
/// Whatever vector was drawn, a message that comes back opens under `key` to
/// `message`, and the only failure is `EncryptFailure`. A key of the wrong
/// length or a message too long to frame always fails.
pub fn encrypt(message: &RawMessage, key: &[u8]) -> (out: Result<EncryptedMessage, Error>)
    ensures
        out matches Ok(e) ==> exists|iv: Seq<u8>| sealed(message@, key@, iv) == Some(e@),
        out matches Ok(e) ==> opened(e@, key@) == Some(message@),
        out matches Err(e) ==> e == Error::EncryptFailure,
        key@.len() != AES_KEY_LEN || !framable(message@) ==> out is Err,
{
    let iv = match random_bytes(AES_BLOCK_LEN) {
        Some(v) => v,
        None => {
            return Err(Error::EncryptFailure);
        },
    };
    let out = encrypt_with_iv(message, key, iv.as_slice());
    proof {
        if sealed(message@, key@, iv@) is Some {
            law_sealed_opens(message@, key@, iv@);
        }
    }
    out
}

/// Decrypts a stored message under `key`.
///
/// Gives the message exactly where [`opened`] does; every other outcome is
/// `DecryptFailure`.
pub fn decrypt(message: &EncryptedMessage, key: &[u8]) -> (out: Result<RawMessage, Error>)
    ensures
        opened(message@, key@) matches Some(m) ==> (out matches Ok(raw) && raw@ == m),
        opened(message@, key@) is None ==> out == Err::<RawMessage, Error>(Error::DecryptFailure),
{
    let data = message.data.as_slice();
    if key.len() != AES_KEY_LEN || data.len() < AES_BLOCK_LEN || data.len() > OPENSSL_MAX_LEN {
        return Err(Error::DecryptFailure);
    }
    let iv = copy_range(data, 0, AES_BLOCK_LEN);
    let body = copy_range(data, AES_BLOCK_LEN, data.len());
    let plain = match aes_cbc_decrypt(key, iv.as_slice(), body.as_slice()) {
        Some(p) => p,
        None => {
            return Err(Error::DecryptFailure);
        },
    };
    match decode(plain.as_slice()) {
        Some(raw) => Ok(raw),
        None => Err(Error::DecryptFailure),
    }
}

} // verus!
