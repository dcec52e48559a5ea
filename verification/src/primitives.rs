//! The cryptographic and random primitives, each a thin call into the crate that
//! provides it, and two calls into the standard library. Nothing in this file
//! is proved: every contract here is taken on trust from the source or the
//! documentation of the function it names.
//!
//! Every call here hands a failure back as `None` or `false`, and none reads
//! the clock: the library is told the time by whoever calls it.
//!
//! Keys travel as PEM bytes. Wherever a PEM is read, it is read with an empty
//! passphrase rather than with none, so that a PEM which claims to be
//! encrypted fails to parse instead of making OpenSSL ask the terminal.

use base64::Engine;
use rand::RngCore;
use vstd::prelude::*;

verus! {

/// The largest length that OpenSSL takes for a buffer: `c_int::MAX`.
pub const OPENSSL_MAX_LEN: usize = 0x7fff_ffff;

/// Key length of AES-256 in bytes.
pub const AES_KEY_LEN: usize = 32;

/// Block length of AES in bytes, which is also the length of a CBC initialisation vector.
pub const AES_BLOCK_LEN: usize = 16;

/// The bytes of an optional buffer.
pub open spec fn bytes_of(buffer: Option<Vec<u8>>) -> Option<Seq<u8>> {
    match buffer {
        Some(b) => Some(b@),
        None => None,
    }
}

/// No byte of `bytes` is zero.
pub open spec fn free_of_nul(bytes: Seq<u8>) -> bool {
    forall|i: int| 0 <= i < bytes.len() ==> bytes[i] != 0
}

/// The Argon2id digest of `len` bytes that the default parameters of the `argon2`
/// crate give for a password and a salt, or `None` where the crate refuses the inputs.
pub uninterp spec fn argon2id_digest(password: Seq<u8>, salt: Seq<u8>, len: nat) -> Option<Seq<u8>>;

/// The public half, as a PEM SubjectPublicKeyInfo, of the RSA private key that
/// `private_pem` holds, or `None` where OpenSSL does not read it.
pub uninterp spec fn rsa_public_half(private_pem: Seq<u8>) -> Option<Seq<u8>>;

/// The PKCS#1 PEM of the RSA private key that `sealed_pem` holds under
/// `passphrase`, or `None` where OpenSSL does not open it.
pub uninterp spec fn rsa_unsealed(sealed_pem: Seq<u8>, passphrase: Seq<u8>) -> Option<Seq<u8>>;

/// The size in bytes of the modulus of the RSA private key that `private_pem`
/// holds, or `None` where OpenSSL does not read it.
pub uninterp spec fn rsa_modulus_size(private_pem: Seq<u8>) -> Option<u32>;

/// Whether OpenSSL reads `public_pem` as the public half of an RSA key pair.
pub uninterp spec fn rsa_public_readable(public_pem: Seq<u8>) -> bool;

/// What the RSA private key in `private_pem` makes of `wrapped` under PKCS#1 v1.5
/// padding, or `None` where OpenSSL reports an error.
pub uninterp spec fn rsa_opened(private_pem: Seq<u8>, wrapped: Seq<u8>) -> Option<Seq<u8>>;

/// The AES-256-CBC ciphertext of `data` with PKCS#7 padding, or `None` where
/// OpenSSL reports an error.
pub uninterp spec fn aes_cbc_encrypted(key: Seq<u8>, iv: Seq<u8>, data: Seq<u8>) -> Option<Seq<u8>>;

/// The AES-256-CBC plaintext of `data`, or `None` where OpenSSL reports an
/// error, a bad padding among them.
pub uninterp spec fn aes_cbc_decrypted(key: Seq<u8>, iv: Seq<u8>, data: Seq<u8>) -> Option<Seq<u8>>;

/// The character that stands for a value below sixty-four in the standard
/// alphabet of RFC 4648.
pub open spec fn base64_digit(sextet: int) -> char {
    seq![
        'A', 'B', 'C', 'D', 'E', 'F', 'G', 'H', 'I', 'J', 'K', 'L', 'M', 'N', 'O', 'P',
        'Q', 'R', 'S', 'T', 'U', 'V', 'W', 'X', 'Y', 'Z', 'a', 'b', 'c', 'd', 'e', 'f',
        'g', 'h', 'i', 'j', 'k', 'l', 'm', 'n', 'o', 'p', 'q', 'r', 's', 't', 'u', 'v',
        'w', 'x', 'y', 'z', '0', '1', '2', '3', '4', '5', '6', '7', '8', '9', '+', '/',
    ][sextet]
}

/// The standard base64 text of `bytes`, with padding, after RFC 4648: every
/// three bytes give four characters of six bits each, and a last group of one
/// or two bytes is filled up with zero bits and `=`.
pub open spec fn base64_text(bytes: Seq<u8>) -> Seq<char>
    decreases bytes.len(),
{
    if bytes.len() == 0 {
        Seq::empty()
    } else if bytes.len() == 1 {
        seq![
            base64_digit(bytes[0] as int / 4),
            base64_digit(bytes[0] as int % 4 * 16),
            '=',
            '=',
        ]
    } else if bytes.len() == 2 {
        seq![
            base64_digit(bytes[0] as int / 4),
            base64_digit(bytes[0] as int % 4 * 16 + bytes[1] as int / 16),
            base64_digit(bytes[1] as int % 16 * 4),
            '=',
        ]
    } else {
        seq![
            base64_digit(bytes[0] as int / 4),
            base64_digit(bytes[0] as int % 4 * 16 + bytes[1] as int / 16),
            base64_digit(bytes[1] as int % 16 * 4 + bytes[2] as int / 64),
            base64_digit(bytes[2] as int % 64),
        ] + base64_text(bytes.subrange(3, bytes.len() as int))
    }
}

/// The character that `hex::encode` writes for a value below sixteen.
pub open spec fn hex_digit(nibble: int) -> char {
    seq!['0', '1', '2', '3', '4', '5', '6', '7', '8', '9', 'a', 'b', 'c', 'd', 'e', 'f'][nibble]
}

/// Two lowercase hexadecimal digits for every byte, the high half first.
pub open spec fn hex_text(bytes: Seq<u8>) -> Seq<char> {
    Seq::new(
        2 * bytes.len(),
        |i: int|
            hex_digit(
                if i % 2 == 0 {
                    bytes[i / 2] as int / 16
                } else {
                    bytes[i / 2] as int % 16
                },
            ),
    )
}

/// `getrandom::getrandom` on a fresh buffer of `len` bytes.
///
/// Trusted: on success the buffer still has `len` bytes. Nothing is claimed of
/// the bytes themselves, and two calls may differ. A buffer of more than
/// `isize::MAX` bytes cannot be had, which `requires` leaves out.
#[verifier::external_body]
pub(crate) fn random_bytes(len: usize) -> (bytes: Option<Vec<u8>>)
    requires
        len <= isize::MAX,
    ensures
        bytes matches Some(b) ==> b@.len() == len,
{
    let mut buffer = vec![0u8; len];
    getrandom::getrandom(&mut buffer).ok()?;
    Some(buffer)
}

/// `rand::RngCore::try_fill_bytes` of `rand::rngs::OsRng` on a fresh buffer of
/// `len` bytes.
///
/// Trusted: on success the buffer still has `len` bytes. Nothing is claimed
/// of the bytes themselves, and two calls may differ. A buffer of more than
/// `isize::MAX` bytes cannot be had, which `requires` leaves out.
#[verifier::external_body]
pub(crate) fn os_random_bytes(len: usize) -> (bytes: Option<Vec<u8>>)
    requires
        len <= isize::MAX,
    ensures
        bytes matches Some(b) ==> b@.len() == len,
{
    let mut buffer = vec![0u8; len];
    rand::rngs::OsRng.try_fill_bytes(&mut buffer).ok()?;
    Some(buffer)
}

/// `hex::encode`.
///
/// Trusted: the text is two lowercase hexadecimal digits per byte, as the
/// crate documents. A text of more than `isize::MAX` bytes cannot be had,
/// which `requires` leaves out.
#[verifier::external_body]
pub(crate) fn hex_encode(bytes: &[u8]) -> (text: String)
    requires
        2 * bytes@.len() <= isize::MAX,
    ensures
        text@ == hex_text(bytes@),
{
    hex::encode(bytes)
}

/// `argon2::Argon2::hash_password_into` with `Argon2::default()` and an output
/// buffer of `len` bytes.
///
/// Trusted: the outcome is a function of the password, the salt and the
/// length alone, and a digest has `len` bytes. A buffer of more than
/// `isize::MAX` bytes cannot be had, which `requires` leaves out.
#[verifier::external_body]
pub(crate) fn argon2id(password: &[u8], salt: &[u8], len: usize) -> (digest: Option<Vec<u8>>)
    requires
        len <= isize::MAX,
    ensures
        bytes_of(digest) == argon2id_digest(password@, salt@, len as nat),
        digest matches Some(d) ==> d@.len() == len,
{
    let mut buffer = vec![0u8; len];
    argon2::Argon2::default().hash_password_into(password, salt, &mut buffer).ok()?;
    Some(buffer)
}

/// `base64::Engine::encode` of `base64::engine::general_purpose::STANDARD`.
///
/// Trusted: the text is the padded base64 of the bytes in the standard
/// alphabet, as the crate documents. The call panics where the length of the
/// text does not fit in `usize`, and a text of more than `isize::MAX` bytes
/// cannot be had; `requires` leaves both out.
#[verifier::external_body]
pub(crate) fn base64_encode(bytes: &[u8]) -> (text: String)
    requires
        bytes@.len() / 3 * 4 + 4 <= isize::MAX,
    ensures
        text@ == base64_text(bytes@),
{
    base64::engine::general_purpose::STANDARD.encode(bytes)
}

/// `openssl::rsa::Rsa::generate`, the key handed back by `Rsa::private_key_to_pem`
/// as a PKCS#1 PEM.
///
/// Nothing is claimed of the key: every call draws a new one.
#[verifier::external_body]
pub(crate) fn rsa_generate(bits: u32) -> (private_pem: Option<Vec<u8>>) {
    let rsa = openssl::rsa::Rsa::generate(bits).ok()?;
    rsa.private_key_to_pem().ok()
}

/// `openssl::rsa::Rsa::public_key_to_pem` of the key that
/// `Rsa::private_key_from_pem_passphrase` reads from `private_pem` with an
/// empty passphrase.
///
/// Trusted: the outcome is a function of `private_pem` alone. The read panics
/// on more than `c_int::MAX` bytes, which `requires` leaves out.
#[verifier::external_body]
pub(crate) fn rsa_public_pem(private_pem: &[u8]) -> (public_pem: Option<Vec<u8>>)
    requires
        private_pem@.len() <= OPENSSL_MAX_LEN,
    ensures
        bytes_of(public_pem) == rsa_public_half(private_pem@),
{
    let rsa = openssl::rsa::Rsa::private_key_from_pem_passphrase(private_pem, b"").ok()?;
    rsa.public_key_to_pem().ok()
}

/// `openssl::rsa::Rsa::size` of the key that
/// `Rsa::private_key_from_pem_passphrase` reads from `private_pem` with an
/// empty passphrase.
///
/// Trusted: the outcome is a function of `private_pem` alone. The read panics
/// on more than `c_int::MAX` bytes, which `requires` leaves out.
#[verifier::external_body]
pub(crate) fn rsa_size(private_pem: &[u8]) -> (size: Option<u32>)
    requires
        private_pem@.len() <= OPENSSL_MAX_LEN,
    ensures
        size == rsa_modulus_size(private_pem@),
{
    let rsa = openssl::rsa::Rsa::private_key_from_pem_passphrase(private_pem, b"").ok()?;
    Some(rsa.size())
}

/// `openssl::pkey::PKey::rsa` of the key that
/// `PKey::public_key_from_pem_passphrase` reads from `public_pem` with an
/// empty passphrase: whether both succeed.
///
/// Trusted: the outcome is a function of `public_pem` alone. The read panics
/// on more than `c_int::MAX` bytes, which `requires` leaves out.
#[verifier::external_body]
pub(crate) fn rsa_reads_public(public_pem: &[u8]) -> (readable: bool)
    requires
        public_pem@.len() <= OPENSSL_MAX_LEN,
    ensures
        readable == rsa_public_readable(public_pem@),
{
    match openssl::pkey::PKey::public_key_from_pem_passphrase(public_pem, b"") {
        Ok(key) => key.rsa().is_ok(),
        Err(_) => false,
    }
}

/// `openssl::pkey::PKey::private_key_to_pem_pkcs8_passphrase` with
/// `Cipher::aes_256_cbc()`, on the key that `Rsa::private_key_from_pem_passphrase`
/// reads from `private_pem` with an empty passphrase and `PKey::from_rsa` takes over.
///
/// Nothing is claimed of the result: OpenSSL salts it anew on every call. Both
/// calls panic on more than `c_int::MAX` bytes, which `requires` leaves out.
#[verifier::external_body]
pub(crate) fn rsa_seal(private_pem: &[u8], passphrase: &[u8]) -> (sealed_pem: Option<Vec<u8>>)
    requires
        private_pem@.len() <= OPENSSL_MAX_LEN,
        passphrase@.len() <= OPENSSL_MAX_LEN,
{
    let rsa = openssl::rsa::Rsa::private_key_from_pem_passphrase(private_pem, b"").ok()?;
    let key = openssl::pkey::PKey::from_rsa(rsa).ok()?;
    key.private_key_to_pem_pkcs8_passphrase(openssl::symm::Cipher::aes_256_cbc(), passphrase).ok()
}

/// `openssl::rsa::Rsa::private_key_from_pem_passphrase`, the key handed back
/// by `Rsa::private_key_to_pem` as a PKCS#1 PEM.
///
/// Trusted: the outcome is a function of the sealed PEM and the passphrase
/// alone. The call panics on a passphrase that holds a zero byte and on more
/// than `c_int::MAX` bytes of PEM, which `requires` leaves out.
#[verifier::external_body]
pub(crate) fn rsa_unseal(sealed_pem: &[u8], passphrase: &[u8]) -> (private_pem: Option<Vec<u8>>)
    requires
        sealed_pem@.len() <= OPENSSL_MAX_LEN,
        free_of_nul(passphrase@),
    ensures
        bytes_of(private_pem) == rsa_unsealed(sealed_pem@, passphrase@),
{
    let rsa = openssl::rsa::Rsa::private_key_from_pem_passphrase(sealed_pem, passphrase).ok()?;
    rsa.private_key_to_pem().ok()
}

/// `openssl::rsa::Rsa::public_encrypt` with `Padding::PKCS1`, under the key
/// that `PKey::public_key_from_pem_passphrase` reads from `public_pem` with an
/// empty passphrase and `PKey::rsa` hands on; the output buffer has the size
/// of the modulus and is cut to the number of bytes written.
///
/// Nothing is claimed of the result: the padding is random. The calls panic on
/// more than `c_int::MAX` bytes, which `requires` leaves out.
#[verifier::external_body]
pub(crate) fn rsa_wrap(public_pem: &[u8], secret: &[u8]) -> (wrapped: Option<Vec<u8>>)
    requires
        public_pem@.len() <= OPENSSL_MAX_LEN,
        secret@.len() <= OPENSSL_MAX_LEN,
{
    let key = openssl::pkey::PKey::public_key_from_pem_passphrase(public_pem, b"").ok()?;
    let rsa = key.rsa().ok()?;
    let mut buffer = vec![0u8; rsa.size() as usize];
    let written = rsa.public_encrypt(secret, &mut buffer, openssl::rsa::Padding::PKCS1).ok()?;
    buffer.truncate(written);
    Some(buffer)
}

/// `openssl::rsa::Rsa::private_decrypt` with `Padding::PKCS1`, under the key
/// that `Rsa::private_key_from_pem_passphrase` reads from `private_pem` with
/// an empty passphrase; the output buffer has the size of the modulus and is
/// cut to the number of bytes written.
///
/// Trusted: the outcome is a function of the key and the wrapped bytes alone.
/// The calls panic on more than `c_int::MAX` bytes, which `requires` leaves out.
#[verifier::external_body]
pub(crate) fn rsa_unwrap(private_pem: &[u8], wrapped: &[u8]) -> (secret: Option<Vec<u8>>)
    requires
        private_pem@.len() <= OPENSSL_MAX_LEN,
        wrapped@.len() <= OPENSSL_MAX_LEN,
    ensures
        bytes_of(secret) == rsa_opened(private_pem@, wrapped@),
{
    let rsa = openssl::rsa::Rsa::private_key_from_pem_passphrase(private_pem, b"").ok()?;
    let mut buffer = vec![0u8; rsa.size() as usize];
    let written = rsa.private_decrypt(wrapped, &mut buffer, openssl::rsa::Padding::PKCS1).ok()?;
    buffer.truncate(written);
    Some(buffer)
}

/// `openssl::symm::encrypt` with `Cipher::aes_256_cbc()`.
///
/// Trusted: the outcome is a function of key, initialisation vector and data
/// alone. The call panics on a key or vector shorter than the cipher's and on
/// buffers beyond `c_int::MAX`, which `requires` leaves out.
#[verifier::external_body]
pub(crate) fn aes_cbc_encrypt(key: &[u8], iv: &[u8], data: &[u8]) -> (out: Option<Vec<u8>>)
    requires
        key@.len() == AES_KEY_LEN,
        iv@.len() == AES_BLOCK_LEN,
        data@.len() + AES_BLOCK_LEN <= OPENSSL_MAX_LEN,
    ensures
        bytes_of(out) == aes_cbc_encrypted(key@, iv@, data@),
{
    openssl::symm::encrypt(openssl::symm::Cipher::aes_256_cbc(), key, Some(iv), data).ok()
}

/// `openssl::symm::decrypt` with `Cipher::aes_256_cbc()`.
///
/// Trusted: the outcome is a function of key, initialisation vector and data
/// alone. The call panics on a key or vector shorter than the cipher's and on
/// buffers beyond `c_int::MAX`, which `requires` leaves out.
#[verifier::external_body]
pub(crate) fn aes_cbc_decrypt(key: &[u8], iv: &[u8], data: &[u8]) -> (out: Option<Vec<u8>>)
    requires
        key@.len() == AES_KEY_LEN,
        iv@.len() == AES_BLOCK_LEN,
        data@.len() + AES_BLOCK_LEN <= OPENSSL_MAX_LEN,
    ensures
        bytes_of(out) == aes_cbc_decrypted(key@, iv@, data@),
{
    openssl::symm::decrypt(openssl::symm::Cipher::aes_256_cbc(), key, Some(iv), data).ok()
}

/// `String::from_utf8`.
///
/// Trusted: it succeeds exactly on well-formed UTF-8, and the string then
/// consists of the given bytes.
#[verifier::external_body]
pub(crate) fn string_from_utf8(bytes: Vec<u8>) -> (text: Option<String>)
    ensures
        text is Some <==> vstd::utf8::valid_utf8(bytes@),
        text matches Some(t) ==> vstd::utf8::encode_utf8(t@) == bytes@,
{
    String::from_utf8(bytes).ok()
}

/// `String::push`.
///
/// Trusted: the character is appended and nothing else changes, as std
/// documents.
#[verifier::external_body]
pub(crate) fn push_char(text: &mut String, c: char)
    ensures
        final(text)@ == old(text)@.push(c),
{
    text.push(c);
}

} // verus!
