//! The key vault: the decrypted private key of each active session, in memory only.

use crate::bytes::{copy_bytes, wipe};
use crate::error::Error;
use crate::table::Table;
use vstd::prelude::*;

verus! {

/// An authenticated session, bound to the username that logged in.
#[derive(Clone, Debug, PartialEq, Eq)]
pub struct Session {
    pub username: String,
}

/// Holds at most one decrypted private key per username, for as long as that
/// user's session lasts. Nothing in it is ever written anywhere else.
///
/// Its view is the map from each username to its key.
pub struct KeyVault {
    keys: Table<Vec<u8>>,
}

/// The map from each name to the bytes filed under it.
pub open spec fn byte_views(rows: Map<Seq<char>, Vec<u8>>) -> Map<Seq<char>, Seq<u8>> {
    rows.map_values(|k: Vec<u8>| k@)
}

impl KeyVault {
    /// The keys by username.
    pub closed spec fn keys(&self) -> Map<Seq<char>, Vec<u8>> {
        self.keys@
    }

    /// The map from each username to its private key.
    pub open spec fn view(&self) -> Map<Seq<char>, Seq<u8>> {
        byte_views(self.keys())
    }

    /// A vault without keys.
    pub fn new() -> (vault: Self)
        ensures
            vault@ == Map::<Seq<char>, Seq<u8>>::empty(),
    {
        KeyVault { keys: Table::new() }
    }

    /// Puts `private_key` in the vault for `username`, in place of any key
    /// held for that name before, which is overwritten with zeros.
    pub fn install(&mut self, username: &str, private_key: Vec<u8>)
        ensures
            final(self)@ == old(self)@.insert(username@, private_key@),
    {
        let name = username.to_owned();
        match self.keys.remove(&name) {
            Some(mut previous) => {
                wipe(&mut previous);
            },
            None => {},
        }
        self.keys.insert(name, private_key);
    }

    /// A copy of the private key held for `username`; `NoActiveSession` where
    /// the vault holds none.
    pub fn get(&self, username: &str) -> (out: Result<Vec<u8>, Error>)
        ensures
            self@.contains_key(username@) ==> (out matches Ok(k) && k@ == self@[username@]),
            !self@.contains_key(username@) ==> out == Err::<Vec<u8>, Error>(Error::NoActiveSession),
    {
        let name = username.to_owned();
        match self.keys.get(&name) {
            Some(key) => Ok(copy_bytes(key.as_slice())),
            None => Err(Error::NoActiveSession),
        }
    }

    /// Whether the vault holds a key for `username`.
    pub fn holds(&self, username: &str) -> (found: bool)
        ensures
            found == self@.contains_key(username@),
    {
        let name = username.to_owned();
        self.keys.contains(&name)
    }

    /// Takes the key held for `username` out of the vault and overwrites it
    /// with zeros. Without such a key nothing changes.
    pub fn clear(&mut self, username: &str)
        ensures
            final(self)@ == old(self)@.remove(username@),
    {
        let name = username.to_owned();
        match self.keys.remove(&name) {
            Some(mut key) => {
                wipe(&mut key);
            },
            None => {},
        }
    }
}

/// Ends `session`: its key leaves the vault.
pub fn logout(vault: &mut KeyVault, session: Session)
    ensures
        final(vault)@ == old(vault)@.remove(session.username@),
{
    vault.clear(session.username.as_str());
}

} // verus!
