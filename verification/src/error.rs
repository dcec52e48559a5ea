//! The typed failures that every operation of the core reports.

use vstd::prelude::*;

verus! {

/// The family a failure belongs to.
#[derive(Clone, Copy, Debug, PartialEq, Eq, Structural)]
pub enum ErrorKind {
    Validation,
    Auth,
    Crypto,
    NotFound,
    Authorization,
    Store,
}

/// Every failure the core can report. No operation panics or retries.
#[derive(Clone, Copy, Debug, PartialEq, Eq, Structural)]
pub enum Error {
    /// Registration named a username that an account already holds.
    DuplicateUsername,
    /// A conversation named a participant without an account, or with an
    /// account whose public key does not read as one.
    UnknownParticipant,
    /// Unknown username or wrong password; the two are not told apart.
    InvalidCredentials,
    /// The random source, the key derivation or the key generation failed.
    KeyGenFailure,
    /// A wrapped conversation key did not open under the caller's private key.
    KeyUnwrapFailed,
    /// Encryption failed: the symmetric cipher refused a message, or a
    /// conversation key could not be wrapped for a participant.
    EncryptFailure,
    /// A stored message did not decrypt or did not decode.
    DecryptFailure,
    /// A stored private key did not open under a password that matched its hash.
    KeyVaultCorruption,
    /// No conversation has the given identifier.
    UnknownConversation,
    /// The vault holds no key for the given username.
    NoActiveSession,
    /// The caller has no wrapped key in the conversation.
    NotAParticipant,
    /// The store could not be reached.
    StoreUnavailable,
    /// The store already holds a record that the write would have replaced.
    StoreConflict,
}

impl Error {
    /// The family of this failure.
    pub open spec fn kind_spec(self) -> ErrorKind {
        match self {
            Error::DuplicateUsername | Error::UnknownParticipant => ErrorKind::Validation,
            Error::InvalidCredentials => ErrorKind::Auth,
            Error::KeyGenFailure
            | Error::KeyUnwrapFailed
            | Error::EncryptFailure
            | Error::DecryptFailure
            | Error::KeyVaultCorruption => ErrorKind::Crypto,
            Error::UnknownConversation | Error::NoActiveSession => ErrorKind::NotFound,
            Error::NotAParticipant => ErrorKind::Authorization,
            Error::StoreUnavailable | Error::StoreConflict => ErrorKind::Store,
        }
    }

    /// What the user is told of this failure. No text names a key, a hash or
    /// a ciphertext, and a refused login reads the same whatever was wrong.
    pub open spec fn message_of(self) -> Seq<char> {
        match self {
            Error::DuplicateUsername => "Username already exists. Please try again."@,
            Error::UnknownParticipant => "One of these users has no account or no public key."@,
            Error::InvalidCredentials => "Invalid username or password."@,
            Error::KeyGenFailure => "Failed to generate the keys of the account."@,
            Error::KeyUnwrapFailed => "Failed to open the conversation key."@,
            Error::EncryptFailure => "Failed to encrypt."@,
            Error::DecryptFailure => "Failed to decrypt."@,
            Error::KeyVaultCorruption => "The stored private key is damaged."@,
            Error::UnknownConversation => "Conversation does not exist."@,
            Error::NoActiveSession => "You are not logged in."@,
            Error::NotAParticipant => "You are not a participant of this conversation."@,
            Error::StoreUnavailable => "Failed to reach the database."@,
            Error::StoreConflict => "The database holds another record already."@,
        }
    }

    /// What the user is told of this failure.
    pub fn message(&self) -> (text: String)
        ensures
            text@ == self.message_of(),
    {
        match self {
            Error::DuplicateUsername => "Username already exists. Please try again.".to_owned(),
            Error::UnknownParticipant => {
                "One of these users has no account or no public key.".to_owned()
            },
            Error::InvalidCredentials => "Invalid username or password.".to_owned(),
            Error::KeyGenFailure => "Failed to generate the keys of the account.".to_owned(),
            Error::KeyUnwrapFailed => "Failed to open the conversation key.".to_owned(),
            Error::EncryptFailure => "Failed to encrypt.".to_owned(),
            Error::DecryptFailure => "Failed to decrypt.".to_owned(),
            Error::KeyVaultCorruption => "The stored private key is damaged.".to_owned(),
            Error::UnknownConversation => "Conversation does not exist.".to_owned(),
            Error::NoActiveSession => "You are not logged in.".to_owned(),
            Error::NotAParticipant => "You are not a participant of this conversation.".to_owned(),
            Error::StoreUnavailable => "Failed to reach the database.".to_owned(),
            Error::StoreConflict => "The database holds another record already.".to_owned(),
        }
    }

    /// The family of this failure.
    pub fn kind(&self) -> (k: ErrorKind)
        ensures
            k == self.kind_spec(),
    {
        match self {
            Error::DuplicateUsername | Error::UnknownParticipant => ErrorKind::Validation,
            Error::InvalidCredentials => ErrorKind::Auth,
            Error::KeyGenFailure
            | Error::KeyUnwrapFailed
            | Error::EncryptFailure
            | Error::DecryptFailure
            | Error::KeyVaultCorruption => ErrorKind::Crypto,
            Error::UnknownConversation | Error::NoActiveSession => ErrorKind::NotFound,
            Error::NotAParticipant => ErrorKind::Authorization,
            Error::StoreUnavailable | Error::StoreConflict => ErrorKind::Store,
        }
    }
}

} // verus!
