//! Accounts and the store that keeps one account per username.

use crate::bytes::copy_bytes;
use crate::error::Error;
use crate::table::Table;
use crate::text::{copy_names, texts};
use vstd::prelude::*;

verus! {

/// A registered identity. The username is its key everywhere and never changes.
#[derive(Clone, Debug, PartialEq, Eq)]
pub struct Account {
    pub username: String,
    /// The password digest, in base64.
    pub hash: String,
    /// The random salt that the digest was derived with.
    pub salt: Vec<u8>,
    /// The RSA public key, as a PEM.
    pub public_key: Vec<u8>,
    /// The RSA private key, as a PEM encrypted under the password.
    pub priv_key_enc: Vec<u8>,
    /// The usernames this account has added as friends.
    pub friends: Vec<String>,
}

/// What an [`Account`] holds.
pub struct AccountView {
    pub username: Seq<char>,
    pub hash: Seq<char>,
    pub salt: Seq<u8>,
    pub public_key: Seq<u8>,
    pub priv_key_enc: Seq<u8>,
    pub friends: Seq<Seq<char>>,
}

impl View for Account {
    type V = AccountView;

    open spec fn view(&self) -> AccountView {
        AccountView {
            username: self.username@,
            hash: self.hash@,
            salt: self.salt@,
            public_key: self.public_key@,
            priv_key_enc: self.priv_key_enc@,
            friends: texts(self.friends@),
        }
    }
}

impl Default for Account {
    /// An account with every field empty.
    fn default() -> (account: Account)
        ensures
            account@ == (AccountView {
                username: Seq::empty(),
                hash: Seq::empty(),
                salt: Seq::empty(),
                public_key: Seq::empty(),
                priv_key_enc: Seq::empty(),
                friends: Seq::empty(),
            }),
    {
        let account = Account {
            username: String::new(),
            hash: String::new(),
            salt: Vec::new(),
            public_key: Vec::new(),
            priv_key_enc: Vec::new(),
            friends: Vec::new(),
        };
        assert(texts(account.friends@) =~= Seq::empty());
        account
    }
}

impl Account {
    /// A copy of this account.
    pub fn duplicate(&self) -> (copy: Account)
        ensures
            copy@ == self@,
    {
        Account {
            username: self.username.clone(),
            hash: self.hash.clone(),
            salt: copy_bytes(self.salt.as_slice()),
            public_key: copy_bytes(self.public_key.as_slice()),
            priv_key_enc: copy_bytes(self.priv_key_enc.as_slice()),
            friends: copy_names(&self.friends),
        }
    }

    /// The account stored under `username`, if there is one.
    pub fn get_account(store: &AccountStore, username: &String) -> (found: Option<Account>)
        ensures
            found matches Some(a) ==> (store@.contains_key(username@) && a@ == store@[username@]
                && a.username@ == username@),
            found is None ==> !store@.contains_key(username@),
    {
        store.get(username)
    }

    /// Stores `new` under its username, which must be free, and hands back
    /// what was stored. A taken username is a `StoreConflict` and changes nothing.
    pub fn create_account(store: &mut AccountStore, new: &Account) -> (out: Result<Account, Error>)
        ensures
            old(store)@.contains_key(new.username@) ==> out == Err::<Account, Error>(
                Error::StoreConflict,
            ) && final(store)@ == old(store)@,
            !old(store)@.contains_key(new.username@) ==> (out matches Ok(a) && a@ == new@)
                && final(store)@ == old(store)@.insert(new.username@, new@),
    {
        if store.insert(new.duplicate()) {
            Ok(new.duplicate())
        } else {
            Err(Error::StoreConflict)
        }
    }

    /// Puts `new` in place of the account stored under its username and hands
    /// back what was stored. Where there is none, that is a `StoreConflict`
    /// and changes nothing.
    pub fn update_account(store: &mut AccountStore, new: &Account) -> (out: Result<Account, Error>)
        ensures
            old(store)@.contains_key(new.username@) ==> (out matches Ok(a) && a@ == new@)
                && final(store)@ == old(store)@.insert(new.username@, new@),
            !old(store)@.contains_key(new.username@) ==> out == Err::<Account, Error>(
                Error::StoreConflict,
            ) && final(store)@ == old(store)@,
    {
        if store.replace(new.duplicate()) {
            Ok(new.duplicate())
        } else {
            Err(Error::StoreConflict)
        }
    }

    /// Removes the account stored under `username`, if there is one.
    pub fn delete_account(store: &mut AccountStore, username: &String) -> (out: Result<(), Error>)
        ensures
            out is Ok,
            final(store)@ == old(store)@.remove(username@),
    {
        store.remove(username);
        Ok(())
    }
}

/// The accounts, one per username.
///
/// Its view is the map from each username to what its account holds.
pub struct AccountStore {
    table: Table<Account>,
}

/// The map from each username to what its account holds.
pub open spec fn account_views(accounts: Map<Seq<char>, Account>) -> Map<Seq<char>, AccountView> {
    accounts.map_values(|a: Account| a@)
}

impl AccountStore {
    #[verifier::type_invariant]
    spec fn filed_under_username(self) -> bool {
        forall|name: Seq<char>| #[trigger]
            self.table@.contains_key(name) ==> self.table@[name].username@ == name
    }

    /// The accounts by username.
    pub closed spec fn accounts(&self) -> Map<Seq<char>, Account> {
        self.table@
    }

    /// The map from each username to what its account holds.
    pub open spec fn view(&self) -> Map<Seq<char>, AccountView> {
        account_views(self.accounts())
    }

    /// A store without accounts.
    pub fn new() -> (store: Self)
        ensures
            store@ == Map::<Seq<char>, AccountView>::empty(),
    {
        AccountStore { table: Table::new() }
    }

    /// The number of accounts.
    pub fn len(&self) -> (n: usize)
        ensures
            self@.dom().finite(),
            n == self@.dom().len(),
    {
        assert(self@.dom() =~= self.table@.dom());
        self.table.len()
    }

    /// Whether an account is stored under `username`.
    pub fn contains(&self, username: &String) -> (found: bool)
        ensures
            found == self@.contains_key(username@),
    {
        self.table.contains(username)
    }

    /// A copy of the account stored under `username`.
    pub fn get(&self, username: &String) -> (found: Option<Account>)
        ensures
            found matches Some(a) ==> (self@.contains_key(username@) && a@ == self@[username@]
                && a.username@ == username@),
            found is None ==> !self@.contains_key(username@),
    {
        proof {
            use_type_invariant(self);
        }
        match self.table.get(username) {
            Some(account) => Some(account.duplicate()),
            None => None,
        }
    }

    /// Stores `account` under its username unless that is taken; says whether it did.
    pub fn insert(&mut self, account: Account) -> (added: bool)
        ensures
            added == !old(self)@.contains_key(account.username@),
            added ==> final(self)@ == old(self)@.insert(account.username@, account@),
            !added ==> final(self)@ == old(self)@,
    {
        proof {
            use_type_invariant(&*self);
        }
        let mut table: Table<Account> = Table::new();
        core::mem::swap(&mut self.table, &mut table);
        let name = account.username.clone();
        let added = table.insert(name, account);
        core::mem::swap(&mut self.table, &mut table);
        added
    }

    /// Puts `account` in place of the one stored under its username; says
    /// whether there was one.
    pub fn replace(&mut self, account: Account) -> (replaced: bool)
        ensures
            replaced == old(self)@.contains_key(account.username@),
            replaced ==> final(self)@ == old(self)@.insert(account.username@, account@),
            !replaced ==> final(self)@ == old(self)@,
    {
        proof {
            use_type_invariant(&*self);
        }
        let mut table: Table<Account> = Table::new();
        core::mem::swap(&mut self.table, &mut table);
        let name = account.username.clone();
        let replaced = table.replace(&name, account);
        core::mem::swap(&mut self.table, &mut table);
        replaced
    }

    /// Removes the account stored under `username`; says whether there was one.
    pub fn remove(&mut self, username: &String) -> (removed: bool)
        ensures
            removed == old(self)@.contains_key(username@),
            final(self)@ == old(self)@.remove(username@),
    {
        proof {
            use_type_invariant(&*self);
        }
        let mut table: Table<Account> = Table::new();
        core::mem::swap(&mut self.table, &mut table);
        let row = table.remove(username);
        core::mem::swap(&mut self.table, &mut table);
        row.is_some()
    }
}

} // verus!
