//! Identity and conversation key-envelope core of the CRIM messenger.
//!
//! The library authenticates users by password, keeps an RSA key pair per
//! account, and protects every conversation with one symmetric key that is
//! wrapped once for each participant. Its parts, leaf first:
//!
//! - [`vault`] holds the decrypted private key of each active session;
//! - [`identity`] registers accounts and logs users in;
//! - [`envelope`] creates conversations and recovers their key for a participant;
//! - [`cipher`] encrypts and decrypts single messages, framed by [`message`];
//! - [`relay`] sends into and reads from the stored conversations.
//!
//! [`account`] and [`conversation`] hold the records and their stores, which
//! live in memory: whoever talks to a database loads what an operation needs
//! and writes back what it made. [`friends`] keeps the friend lists.
//! [`menu`], [`input`], [`prompt`], [`screens`] and [`layout`] decide what the
//! terminal front end shows and does; they neither read nor print.
//! [`table`], [`bytes`] and [`text`] are the helpers that the rest is built on.
//!
//! Every call into another crate stands in [`primitives`], with the contract
//! that is taken on trust for it. All else is proved against these contracts
//! and those that vstd gives the standard library. Every failure is an
//! [`error::Error`]: no operation of the library ends the process.

pub mod account;
pub mod bytes;
pub mod cipher;
pub mod conversation;
pub mod envelope;
pub mod error;
pub mod friends;
pub mod identity;
pub mod input;
pub mod layout;
pub mod menu;
pub mod message;
pub mod primitives;
pub mod prompt;
pub mod relay;
pub mod screens;
pub mod table;
pub mod text;
pub mod vault;
