//! The identity manager: registration and login.
//!
//! A password is stretched with Argon2id over a random salt and stored as the
//! base64 of the digest. Every account owns an RSA key pair whose private half
//! is stored encrypted under the password. Registration keeps an account only
//! after it has opened the encrypted key again with the password, so an
//! account that was registered can always be logged into. A login hands out
//! a private key only if it is the private half of the public key on record.

use crate::account::{Account, AccountStore, AccountView};
use crate::bytes::{constant_time_eq, holds_nul, wipe};
use crate::error::Error;
use crate::primitives::{
    argon2id, argon2id_digest, base64_encode, base64_text, free_of_nul, random_bytes,
    rsa_generate, rsa_modulus_size, rsa_public_half, rsa_public_pem, rsa_public_readable,
    rsa_reads_public, rsa_seal, rsa_size, rsa_unseal, rsa_unsealed, OPENSSL_MAX_LEN,
};
use crate::vault::{KeyVault, Session};
use vstd::prelude::*;
use vstd::utf8::encode_utf8;

verus! {

/// Length of the salt of an account, in bytes.
pub const SALT_LEN: usize = 256;

/// Length of the password digest before it is put in base64, in bytes.
pub const DIGEST_LEN: usize = 256;

/// Length of the stored password hash, in characters.
pub const HASH_LEN: usize = 344;

/// Size of the RSA modulus of an account's key pair, in bits.
pub const RSA_BITS: u32 = 2048;

/// The least size of the RSA modulus that an account is made with, in bytes.
pub const RSA_BYTES: u32 = 256;

/// The stored form of a password under `salt`: the base64 of its Argon2id
/// digest. `None` where the derivation refuses its inputs.
pub open spec fn password_hash(password: Seq<u8>, salt: Seq<u8>) -> Option<Seq<char>> {
    match argon2id_digest(password, salt, DIGEST_LEN as nat) {
        Some(digest) => Some(base64_text(digest)),
        None => None,
    }
}

/// The private key that `sealed` gives up under `password`. `None` where the
/// password holds a zero byte, which the PEM reader cannot take, where the
/// sealed key is too long for it, or where it does not open.
pub open spec fn unlocked(sealed: Seq<u8>, password: Seq<u8>) -> Option<Seq<u8>> {
    if !free_of_nul(password) || sealed.len() > OPENSSL_MAX_LEN {
        None
    } else {
        rsa_unsealed(sealed, password)
    }
}

/// The account that registration makes of a username, a password, and the
/// three things it draws: a salt, a private key, and that key sealed under the
/// password.
///
/// `DuplicateUsername` where the name is taken. `KeyGenFailure` where the
/// password cannot be hashed, the private key is no RSA key of at least
/// [`RSA_BYTES`] bytes of modulus, it has no public half that reads as a
/// public key, or the sealed key does not open under the password to the
/// private key.
pub open spec fn enrolled(
    accounts: Map<Seq<char>, AccountView>,
    username: Seq<char>,
    password: Seq<u8>,
    salt: Seq<u8>,
    private_key: Seq<u8>,
    sealed_key: Seq<u8>,
) -> Result<AccountView, Error> {
    if accounts.contains_key(username) {
        Err(Error::DuplicateUsername)
    } else if password_hash(password, salt) is None || !wide_enough(private_key)
        || !shows_public_half(private_key) || unlocked(sealed_key, password) != Some(
        private_key,
    ) {
        Err(Error::KeyGenFailure)
    } else {
        Ok(
            AccountView {
                username,
                hash: password_hash(password, salt).unwrap(),
                salt,
                public_key: rsa_public_half(private_key).unwrap(),
                priv_key_enc: sealed_key,
                friends: Seq::empty(),
            },
        )
    }
}

/// Whether `private_key` has a public half that reads as the public key of
/// an RSA key pair.
pub open spec fn shows_public_half(private_key: Seq<u8>) -> bool {
    rsa_public_half(private_key) matches Some(public_key) && public_key.len() <= OPENSSL_MAX_LEN
        && rsa_public_readable(public_key)
}

/// Whether `private_key` holds an RSA key whose modulus has at least
/// [`RSA_BYTES`] bytes.
pub open spec fn wide_enough(private_key: Seq<u8>) -> bool {
    &&& private_key.len() <= OPENSSL_MAX_LEN
    &&& rsa_modulus_size(private_key) matches Some(size) && size >= RSA_BYTES
}

/// What a login with `username` and `password` comes to: the private key of
/// the account, or the reason it is refused.
///
/// An unknown username and a password whose hash differs from the stored one
/// give the same `InvalidCredentials`. A stored key that does not open under a
/// password that matched, or that is not the private half of the stored
/// public key, is `KeyVaultCorruption`.
pub open spec fn authenticated(
    accounts: Map<Seq<char>, AccountView>,
    username: Seq<char>,
    password: Seq<u8>,
) -> Result<Seq<u8>, Error> {
    if !accounts.contains_key(username) {
        Err(Error::InvalidCredentials)
    } else if password_hash(password, accounts[username].salt) != Some(accounts[username].hash) {
        Err(Error::InvalidCredentials)
    } else {
        match unlocked(accounts[username].priv_key_enc, password) {
            Some(private_key) => if belongs_to(private_key, accounts[username].public_key) {
                Ok(private_key)
            } else {
                Err(Error::KeyVaultCorruption)
            },
            None => Err(Error::KeyVaultCorruption),
        }
    }
}

/// Whether `private_key` is the private half of the pair that `public_key`
/// is the public half of.
pub open spec fn belongs_to(private_key: Seq<u8>, public_key: Seq<u8>) -> bool {
    private_key.len() <= OPENSSL_MAX_LEN && rsa_public_half(private_key) == Some(public_key)
}

/// Whoever is logged in holds the private half of the key pair whose public
/// half the account shows.
pub proof fn law_login_yields_the_matching_key(
    accounts: Map<Seq<char>, AccountView>,
    username: Seq<char>,
    password: Seq<u8>,
)
    ensures
        authenticated(accounts, username, password) matches Ok(private_key) ==> {
            &&& accounts.contains_key(username)
            &&& belongs_to(private_key, accounts[username].public_key)
        },
{
}

/// Registering and then logging in with the same credentials succeeds, and
/// the key that the login recovers is the private half of the very pair whose
/// public half the account shows, an RSA key of at least [`RSA_BYTES`] bytes
/// of modulus. Whoever is registered can be named as a participant.
pub proof fn law_register_then_login(
    accounts: Map<Seq<char>, AccountView>,
    username: Seq<char>,
    password: Seq<u8>,
    salt: Seq<u8>,
    private_key: Seq<u8>,
    sealed_key: Seq<u8>,
)
    requires
        enrolled(accounts, username, password, salt, private_key, sealed_key) is Ok,
    ensures
        ({
            let account = enrolled(
                accounts,
                username,
                password,
                salt,
                private_key,
                sealed_key,
            )->Ok_0;
            &&& authenticated(accounts.insert(username, account), username, password) == Ok::<
                Seq<u8>,
                Error,
            >(private_key)
            &&& rsa_public_half(private_key) == Some(account.public_key)
            &&& wide_enough(private_key)
            &&& crate::envelope::has_public_key(accounts.insert(username, account), username)
        }),
{
}

/// A username that is taken cannot be registered again, whatever else is
/// offered with it; and registering one name leaves every other account as it was.
pub proof fn law_duplicate_username(
    accounts: Map<Seq<char>, AccountView>,
    username: Seq<char>,
    password: Seq<u8>,
    salt: Seq<u8>,
    private_key: Seq<u8>,
    sealed_key: Seq<u8>,
    other: Seq<char>,
)
    requires
        accounts.contains_key(username),
    ensures
        enrolled(accounts, username, password, salt, private_key, sealed_key) == Err::<
            AccountView,
            Error,
        >(Error::DuplicateUsername),
        enrolled(accounts, other, password, salt, private_key, sealed_key) matches Ok(account)
            ==> accounts.insert(other, account)[username] == accounts[username],
{
}

/// A login under a name without an account and a login with a password whose
/// hash is not the stored one are refused with one and the same error.
pub proof fn law_uniform_refusal(
    accounts: Map<Seq<char>, AccountView>,
    unknown: Seq<char>,
    known: Seq<char>,
    password: Seq<u8>,
    wrong_password: Seq<u8>,
)
    requires
        !accounts.contains_key(unknown),
        accounts.contains_key(known),
        password_hash(wrong_password, accounts[known].salt) != Some(accounts[known].hash),
    ensures
        authenticated(accounts, unknown, password) == authenticated(
            accounts,
            known,
            wrong_password,
        ),
        authenticated(accounts, unknown, password) == Err::<Seq<u8>, Error>(
            Error::InvalidCredentials,
        ),
{
}

/// Base64 makes four characters of every three bytes, the last group filled up.
pub proof fn lemma_base64_len(bytes: Seq<u8>)
    ensures
        base64_text(bytes).len() == 4 * ((bytes.len() + 2) / 3),
    decreases bytes.len(),
{
    if bytes.len() >= 3 {
        lemma_base64_len(bytes.subrange(3, bytes.len() as int));
    }
}

/// Two texts with the same UTF-8 bytes are the same text.
pub proof fn lemma_utf8_decides(left: Seq<char>, right: Seq<char>)
    ensures
        (encode_utf8(left) == encode_utf8(right)) == (left == right),
{
    vstd::utf8::encode_utf8_decode_utf8(left);
    vstd::utf8::encode_utf8_decode_utf8(right);
}

/// The stored form of `password` under `salt`.
pub fn hash_password(password: &[u8], salt: &[u8]) -> (hash: Option<String>)
    ensures
        hash matches Some(h) ==> password_hash(password@, salt@) == Some(h@) && h@.len()
            == HASH_LEN,
        hash is None ==> password_hash(password@, salt@) is None,
{
    match argon2id(password, salt, DIGEST_LEN) {
        Some(digest) => {
            proof {
                lemma_base64_len(digest@);
            }
            Some(base64_encode(digest.as_slice()))
        },
        None => None,
    }
}

/// Opens the sealed private key of an account with `password`.
pub fn unlock_private_key(sealed: &[u8], password: &[u8]) -> (private_key: Option<Vec<u8>>)
    ensures
        crate::primitives::bytes_of(private_key) == unlocked(sealed@, password@),
{
    if holds_nul(password) || sealed.len() > OPENSSL_MAX_LEN {
        return None;
    }
    rsa_unseal(sealed, password)
}

/// Makes the account for `username` from what registration has drawn, and
/// stores it.
///
/// The outcome is exactly [`enrolled`]: on success the account is stored under
/// its username, on failure the store is as it was.
pub fn enroll(
    store: &mut AccountStore,
    username: &str,
    password: &str,
    salt: Vec<u8>,
    private_key: &[u8],
    sealed_key: Vec<u8>,
) -> (out: Result<Account, Error>)
    ensures
        enrolled(
            old(store)@,
            username@,
            encode_utf8(password@),
            salt@,
            private_key@,
            sealed_key@,
        ) matches Ok(a) ==> (out matches Ok(account) && account@ == a) && final(store)@ == old(
            store,
        )@.insert(username@, a),
        enrolled(
            old(store)@,
            username@,
            encode_utf8(password@),
            salt@,
            private_key@,
            sealed_key@,
        ) matches Err(e) ==> out == Err::<Account, Error>(e) && final(store)@ == old(store)@,
{
    let name = username.to_owned();
    if store.contains(&name) {
        return Err(Error::DuplicateUsername);
    }
    let secret = password.as_bytes();
    let hash = match hash_password(secret, salt.as_slice()) {
        Some(h) => h,
        None => {
            return Err(Error::KeyGenFailure);
        },
    };
    if private_key.len() > OPENSSL_MAX_LEN {
        return Err(Error::KeyGenFailure);
    }
    match rsa_size(private_key) {
        Some(size) => {
            if size < RSA_BYTES {
                return Err(Error::KeyGenFailure);
            }
        },
        None => {
            return Err(Error::KeyGenFailure);
        },
    }
    let public_key = match rsa_public_pem(private_key) {
        Some(k) => k,
        None => {
            return Err(Error::KeyGenFailure);
        },
    };
    if public_key.len() > OPENSSL_MAX_LEN || !rsa_reads_public(public_key.as_slice()) {
        return Err(Error::KeyGenFailure);
    }
    let mut reopened = match unlock_private_key(sealed_key.as_slice(), secret) {
        Some(k) => k,
        None => {
            return Err(Error::KeyGenFailure);
        },
    };
    let same = constant_time_eq(reopened.as_slice(), private_key);
    wipe(&mut reopened);
    if !same {
        return Err(Error::KeyGenFailure);
    }
    let account = Account {
        username: name,
        hash,
        salt,
        public_key,
        priv_key_enc: sealed_key,
        friends: Vec::new(),
    };
    assert(crate::text::texts(account.friends@) =~= Seq::<Seq<char>>::empty());
    let stored = account.duplicate();
    let added = store.insert(account);
    Ok(stored)
}

/// Registers a new account: draws a salt and an RSA key pair, seals the
/// private key under the password, and stores the account.
///
/// A taken username, and nothing else, is `DuplicateUsername`. The only other
/// failure is `KeyGenFailure`, which a password of more bytes than OpenSSL
/// takes always is, and every failure leaves the store as it was.
/// Whatever was drawn, an account that comes back was made by [`enrolled`]
/// with a salt of [`SALT_LEN`] bytes, is now stored under its username, can
/// be logged into with the same password, and can be named as a participant
/// of a conversation.
pub fn register(store: &mut AccountStore, username: &str, password: &str) -> (out: Result<
    Account,
    Error,
>)
    ensures
        old(store)@.contains_key(username@) <==> out == Err::<Account, Error>(
            Error::DuplicateUsername,
        ),
        !old(store)@.contains_key(username@) && encode_utf8(password@).len() > OPENSSL_MAX_LEN
            ==> out == Err::<Account, Error>(Error::KeyGenFailure),
        out matches Err(e) ==> (e == Error::DuplicateUsername || e == Error::KeyGenFailure)
            && final(store)@ == old(store)@,
        out matches Ok(a) ==> a.salt@.len() == SALT_LEN && final(store)@ == old(store)@.insert(
            username@,
            a@,
        ),
        out matches Ok(a) ==> exists|private_key: Seq<u8>|
            enrolled(
                old(store)@,
                username@,
                encode_utf8(password@),
                a.salt@,
                private_key,
                a.priv_key_enc@,
            ) == Ok::<AccountView, Error>(a@),
        out is Ok ==> authenticated(final(store)@, username@, encode_utf8(password@)) is Ok,
        out is Ok ==> crate::envelope::has_public_key(final(store)@, username@),
{
    let name = username.to_owned();
    if store.contains(&name) {
        return Err(Error::DuplicateUsername);
    }
    let secret = password.as_bytes();
    if secret.len() > OPENSSL_MAX_LEN {
        return Err(Error::KeyGenFailure);
    }
    let salt = match random_bytes(SALT_LEN) {
        Some(s) => s,
        None => {
            return Err(Error::KeyGenFailure);
        },
    };
    let private_key = match rsa_generate(RSA_BITS) {
        Some(k) => k,
        None => {
            return Err(Error::KeyGenFailure);
        },
    };
    if private_key.len() > OPENSSL_MAX_LEN {
        return Err(Error::KeyGenFailure);
    }
    let sealed_key = match rsa_seal(private_key.as_slice(), secret) {
        Some(k) => k,
        None => {
            return Err(Error::KeyGenFailure);
        },
    };
    let ghost salt_bytes = salt@;
    let ghost sealed_bytes = sealed_key@;
    let ghost private_bytes = private_key@;
    let out = enroll(store, username, password, salt, private_key.as_slice(), sealed_key);
    let mut private_key = private_key;
    wipe(&mut private_key);
    proof {
        let pw = encode_utf8(password@);
        if enrolled(old(store)@, username@, pw, salt_bytes, private_bytes, sealed_bytes) is Ok {
            law_register_then_login(
                old(store)@,
                username@,
                pw,
                salt_bytes,
                private_bytes,
                sealed_bytes,
            );
        }
    }
    out
}

/// The account that the store holds under the username of `account`.
pub fn validate_login_info(store: &AccountStore, account: &Account) -> (found: Option<Account>)
    ensures
        found matches Some(a) ==> (store@.contains_key(account.username@) && a@
            == store@[account.username@] && a.username@ == account.username@),
        found is None ==> !store@.contains_key(account.username@),
{
    Account::get_account(store, &account.username)
}

/// Logs in: checks the password against the stored hash and, where it
/// matches, opens the private key of the account into the vault.
///
/// The outcome is exactly [`authenticated`]. On success the vault holds the
/// private key under `username` and the session is bound to that name; on
/// failure the vault is as it was.
pub fn login(store: &AccountStore, vault: &mut KeyVault, username: &str, password: &str) -> (out:
    Result<Session, Error>)
    ensures
        authenticated(store@, username@, encode_utf8(password@)) matches Ok(k) ==> (out matches Ok(
            s,
        ) && s.username@ == username@) && final(vault)@ == old(vault)@.insert(username@, k),
        authenticated(store@, username@, encode_utf8(password@)) matches Err(e) ==> out == Err::<
            Session,
            Error,
        >(e) && final(vault)@ == old(vault)@,
{
    let name = username.to_owned();
    let secret = password.as_bytes();
    let found = store.get(&name);
    // An unknown name is put through the same derivation as a known one.
    let (salt, expected, sealed) = match found {
        Some(account) => (
            account.salt,
            account.hash,
            Some((account.priv_key_enc, account.public_key)),
        ),
        None => (decoy_salt(), String::new(), None),
    };
    let matched = match hash_password(secret, salt.as_slice()) {
        Some(hash) => {
            proof {
                lemma_utf8_decides(hash@, expected@);
            }
            constant_time_eq(hash.as_str().as_bytes(), expected.as_str().as_bytes())
        },
        None => false,
    };
    let (sealed_key, public_key) = match sealed {
        Some(keys) => keys,
        None => {
            return Err(Error::InvalidCredentials);
        },
    };
    if !matched {
        return Err(Error::InvalidCredentials);
    }
    let mut private_key = match unlock_private_key(sealed_key.as_slice(), secret) {
        Some(k) => k,
        None => {
            return Err(Error::KeyVaultCorruption);
        },
    };
    if !is_private_half(private_key.as_slice(), public_key.as_slice()) {
        wipe(&mut private_key);
        return Err(Error::KeyVaultCorruption);
    }
    vault.install(username, private_key);
    Ok(Session { username: name })
}

/// Whether `private_key` is the private half of the pair that `public_key`
/// is the public half of.
pub fn is_private_half(private_key: &[u8], public_key: &[u8]) -> (yes: bool)
    ensures
        yes == belongs_to(private_key@, public_key@),
{
    if private_key.len() > OPENSSL_MAX_LEN {
        return false;
    }
    match rsa_public_pem(private_key) {
        Some(derived) => constant_time_eq(derived.as_slice(), public_key),
        None => false,
    }
}

/// The salt that stands in where a login names no account.
fn decoy_salt() -> (salt: Vec<u8>)
    ensures
        salt@.len() == SALT_LEN,
{
    let mut salt: Vec<u8> = Vec::new();
    let mut i: usize = 0;
    while i < SALT_LEN
        invariant
            i <= SALT_LEN,
            salt@.len() == i,
        decreases SALT_LEN - i,
    {
        salt.push(0u8);
        i += 1;
    }
    salt
}

} // verus!
