//! The conversation key envelope: one random symmetric key per conversation,
//! wrapped once for every participant under that participant's RSA public key.
//!
//! Each participant recovers the key with a private key of their own, and
//! nobody else has a wrapped key to try. A participant is whoever has an
//! account with a public key that OpenSSL reads as one. What RSA does to the
//! key is not proved here. But where the vault holds the private key of a
//! participant when a conversation is created, the wrapped key is opened once
//! on the spot, and the conversation is kept only if the key comes back.

use crate::account::{AccountStore, AccountView};
use crate::bytes::{constant_time_eq, copy_bytes, wipe};
use crate::conversation::{
    well_formed, Conversation, ConversationStore, ConversationView, UserKey, UserKeyView,
};
use crate::error::Error;
use crate::primitives::{
    hex_encode, hex_text, os_random_bytes, random_bytes, rsa_opened, rsa_public_readable,
    rsa_reads_public, rsa_unwrap, rsa_wrap, AES_KEY_LEN, OPENSSL_MAX_LEN,
};
use crate::text::{holds_name, texts};
use crate::vault::KeyVault;
use vstd::prelude::*;

verus! {

/// Number of random bytes in a conversation identifier.
pub const ID_LEN: usize = 4;

/// `names` without the later occurrences of a name that it holds more than once.
pub open spec fn deduplicated(names: Seq<Seq<char>>) -> Seq<Seq<char>>
    decreases names.len(),
{
    if names.len() == 0 {
        Seq::empty()
    } else if deduplicated(names.drop_last()).contains(names.last()) {
        deduplicated(names.drop_last())
    } else {
        deduplicated(names.drop_last()).push(names.last())
    }
}

/// `deduplicated` holds every name of its argument, once, and no other.
pub proof fn lemma_deduplicated(names: Seq<Seq<char>>)
    ensures
        deduplicated(names).no_duplicates(),
        deduplicated(names).len() <= names.len(),
        forall|name: Seq<char>| deduplicated(names).contains(name) <==> names.contains(name),
    decreases names.len(),
{
    if names.len() > 0 {
        let front = names.drop_last();
        let last = names.last();
        lemma_deduplicated(front);
        assert forall|name: Seq<char>| deduplicated(names).contains(name) <==> names.contains(
            name,
        ) by {
            if names.contains(name) {
                let i = choose|i: int| 0 <= i < names.len() && names[i] == name;
                if i < front.len() {
                    assert(front[i] == name);
                    assert(front.contains(name));
                    assert(deduplicated(front).contains(name));
                    let k = choose|k: int|
                        0 <= k < deduplicated(front).len() && deduplicated(front)[k] == name;
                    assert(deduplicated(names)[k] == name);
                } else {
                    assert(name == last);
                    if !deduplicated(front).contains(last) {
                        assert(deduplicated(names)[deduplicated(front).len() as int] == last);
                    }
                }
            }
            if deduplicated(names).contains(name) {
                let k = choose|k: int|
                    0 <= k < deduplicated(names).len() && deduplicated(names)[k] == name;
                if k < deduplicated(front).len() {
                    assert(deduplicated(front)[k] == name);
                    assert(front.contains(name));
                    let i = choose|i: int| 0 <= i < front.len() && front[i] == name;
                    assert(names[i] == name);
                } else {
                    assert(names[names.len() - 1] == name);
                }
            }
        }
    }
}

/// Whether `i` is the position of the first key in `keys` that `caller` owns.
pub open spec fn is_first_owned(keys: Seq<UserKeyView>, caller: Seq<char>, i: int) -> bool {
    &&& 0 <= i < keys.len()
    &&& keys[i].owner == caller
    &&& forall|j: int| 0 <= j < i ==> (#[trigger] keys[j]).owner != caller
}

/// The position of the first key in `keys` that `caller` owns, if there is one.
pub open spec fn first_owned(keys: Seq<UserKeyView>, caller: Seq<char>) -> Option<int> {
    if exists|i: int| is_first_owned(keys, caller, i) {
        Some(choose|i: int| is_first_owned(keys, caller, i))
    } else {
        None
    }
}

/// The conversation key that `wrapped` gives up under `private_key`. `None`
/// where either is too long for OpenSSL or the key does not open it.
pub open spec fn unwrapped(wrapped: Seq<u8>, private_key: Seq<u8>) -> Option<Seq<u8>> {
    if wrapped.len() > OPENSSL_MAX_LEN || private_key.len() > OPENSSL_MAX_LEN {
        None
    } else {
        rsa_opened(private_key, wrapped)
    }
}

/// What `caller` gets when asking for the key of conversation `c`, with the
/// private keys that `vault` holds.
///
/// `NotAParticipant` where `c` has no key wrapped for the caller, whatever the
/// vault holds; else `NoActiveSession` where the vault has no private key for
/// the caller; else `KeyUnwrapFailed` where the wrapped key does not open.
pub open spec fn unwrapped_key(
    c: ConversationView,
    caller: Seq<char>,
    vault: Map<Seq<char>, Seq<u8>>,
) -> Result<Seq<u8>, Error> {
    match first_owned(c.keys, caller) {
        None => Err(Error::NotAParticipant),
        Some(i) => if !vault.contains_key(caller) {
            Err(Error::NoActiveSession)
        } else {
            match unwrapped(c.keys[i].key, vault[caller]) {
                Some(key) => Ok(key),
                None => Err(Error::KeyUnwrapFailed),
            }
        },
    }
}

/// The first key that `caller` owns is at position `i`.
pub proof fn lemma_first_owned(keys: Seq<UserKeyView>, caller: Seq<char>, i: int)
    requires
        is_first_owned(keys, caller, i),
    ensures
        first_owned(keys, caller) == Some(i),
{
    let k = choose|k: int| is_first_owned(keys, caller, k);
    if k < i {
        assert(keys[k].owner != caller);
    }
    if i < k {
        assert(keys[i].owner != caller);
    }
}

/// In a well-formed conversation the key of the participant at position `i`
/// is the first, and the only one, that this participant owns.
pub proof fn lemma_own_key(c: ConversationView, i: int)
    requires
        well_formed(c),
        0 <= i < c.users.len(),
    ensures
        first_owned(c.keys, c.users[i]) == Some(i),
{
    assert(c.keys[i].owner == c.users[i]);
    assert forall|j: int| 0 <= j < i implies (#[trigger] c.keys[j]).owner != c.users[i] by {
        assert(c.users[j] != c.users[i]);
    }
    lemma_first_owned(c.keys, c.users[i], i);
}

/// Whether every participant of `c` whose private key `vault` holds recovers
/// `key` from `c`.
pub open spec fn opens_for_sessions(
    c: ConversationView,
    vault: Map<Seq<char>, Seq<u8>>,
    key: Seq<u8>,
) -> bool {
    forall|i: int|
        0 <= i < c.users.len() && vault.contains_key(#[trigger] c.users[i]) ==> unwrapped_key(
            c,
            c.users[i],
            vault,
        ) == Ok::<Seq<u8>, Error>(key)
}

/// Of a well-formed conversation, exactly its participants have a wrapped
/// key: whoever is not among them is refused as `NotAParticipant`, and no
/// participant ever is.
pub proof fn law_only_participants(
    c: ConversationView,
    caller: Seq<char>,
    vault: Map<Seq<char>, Seq<u8>>,
)
    requires
        well_formed(c),
    ensures
        c.users.contains(caller) <==> unwrapped_key(c, caller, vault) != Err::<Seq<u8>, Error>(
            Error::NotAParticipant,
        ),
{
    if c.users.contains(caller) {
        let i = choose|i: int| 0 <= i < c.users.len() && c.users[i] == caller;
        lemma_own_key(c, i);
    } else if first_owned(c.keys, caller) is Some {
        let i = first_owned(c.keys, caller).unwrap();
        assert(c.keys[i].owner == c.users[i]);
    }
}

impl UserKey {
    /// Wraps the conversation key `key` for `user` under the public key of
    /// that user's account.
    ///
    /// `UnknownParticipant` exactly where `user` has no account with a
    /// public key that reads as one. Else the wrapped key is owned by
    /// `user`, unless OpenSSL refuses to encrypt, which is `EncryptFailure`
    /// and is what a key of more bytes than OpenSSL takes always comes to.
    pub fn encrypt(accounts: &AccountStore, key: &[u8], user: &String) -> (out: Result<
        UserKey,
        Error,
    >)
        ensures
            !has_public_key(accounts@, user@) <==> out == Err::<UserKey, Error>(
                Error::UnknownParticipant,
            ),
            has_public_key(accounts@, user@) && key@.len() > OPENSSL_MAX_LEN ==> out == Err::<
                UserKey,
                Error,
            >(Error::EncryptFailure),
            out matches Ok(k) ==> k.owner@ == user@,
            out matches Err(e) ==> e == Error::UnknownParticipant || e == Error::EncryptFailure,
    {
        let account = match accounts.get(user) {
            Some(a) => a,
            None => {
                return Err(Error::UnknownParticipant);
            },
        };
        if account.public_key.len() > OPENSSL_MAX_LEN || !rsa_reads_public(
            account.public_key.as_slice(),
        ) {
            return Err(Error::UnknownParticipant);
        }
        if key.len() > OPENSSL_MAX_LEN {
            return Err(Error::EncryptFailure);
        }
        match rsa_wrap(account.public_key.as_slice(), key) {
            Some(wrapped) => Ok(UserKey { owner: user.clone(), key: wrapped }),
            None => Err(Error::EncryptFailure),
        }
    }

    /// Opens this wrapped key with `private_key`; `KeyUnwrapFailed` where it
    /// does not open.
    pub fn decrypt(&self, private_key: &[u8]) -> (out: Result<Vec<u8>, Error>)
        ensures
            unwrapped(self.key@, private_key@) matches Some(k) ==> (out matches Ok(key) && key@
                == k),
            unwrapped(self.key@, private_key@) is None ==> out == Err::<Vec<u8>, Error>(
                Error::KeyUnwrapFailed,
            ),
    {
        if self.key.len() > OPENSSL_MAX_LEN || private_key.len() > OPENSSL_MAX_LEN {
            return Err(Error::KeyUnwrapFailed);
        }
        match rsa_unwrap(private_key, self.key.as_slice()) {
            Some(key) => Ok(key),
            None => Err(Error::KeyUnwrapFailed),
        }
    }
}

/// Recovers the key of `conversation` for `caller`, with the caller's private
/// key from the vault. The outcome is exactly [`unwrapped_key`].
pub fn unwrap_key(conversation: &Conversation, caller: &str, vault: &KeyVault) -> (out: Result<
    Vec<u8>,
    Error,
>)
    ensures
        unwrapped_key(conversation@, caller@, vault@) matches Ok(k) ==> (out matches Ok(key)
            && key@ == k),
        unwrapped_key(conversation@, caller@, vault@) matches Err(e) ==> out == Err::<
            Vec<u8>,
            Error,
        >(e),
{
    let name = caller.to_owned();
    let mut i: usize = 0;
    while i < conversation.keys.len()
        invariant
            i <= conversation.keys@.len(),
            name@ == caller@,
            forall|j: int| 0 <= j < i ==> (#[trigger] conversation@.keys[j]).owner != caller@,
        decreases conversation.keys@.len() - i,
    {
        if conversation.keys[i].owner == name {
            proof {
                assert(conversation@.keys[i as int] == conversation.keys@[i as int]@);
                lemma_first_owned(conversation@.keys, caller@, i as int);
            }
            let mut private_key = match vault.get(caller) {
                Ok(k) => k,
                Err(e) => {
                    return Err(e);
                },
            };
            let out = conversation.keys[i].decrypt(private_key.as_slice());
            wipe(&mut private_key);
            return out;
        }
        assert(conversation@.keys[i as int] == conversation.keys@[i as int]@);
        i += 1;
    }
    assert(first_owned(conversation@.keys, caller@) is None) by {
        if first_owned(conversation@.keys, caller@) is Some {
            let k = choose|k: int| is_first_owned(conversation@.keys, caller@, k);
            assert(conversation@.keys[k].owner != caller@);
        }
    }
    Err(Error::NotAParticipant)
}

/// `names` without the later occurrences of a name that it holds more than once.
pub fn deduplicate(names: &Vec<String>) -> (out: Vec<String>)
    ensures
        texts(out@) == deduplicated(texts(names@)),
{
    let mut out: Vec<String> = Vec::new();
    let mut i: usize = 0;
    assert(texts(out@) =~= deduplicated(texts(names@).subrange(0, 0)));
    while i < names.len()
        invariant
            i <= names@.len(),
            texts(out@) == deduplicated(texts(names@).subrange(0, i as int)),
        decreases names@.len() - i,
    {
        let ghost upto = texts(names@).subrange(0, i + 1);
        assert(upto.drop_last() =~= texts(names@).subrange(0, i as int));
        assert(upto.last() == names@[i as int]@);
        if !holds_name(&out, &names[i]) {
            let ghost before = texts(out@);
            out.push(names[i].clone());
            assert(texts(out@) =~= before.push(names@[i as int]@));
        }
        i += 1;
    }
    assert(texts(names@).subrange(0, names@.len() as int) =~= texts(names@));
    out
}

/// Whether `user` has an account with a public key that reads as one.
pub fn knows_key_of(accounts: &AccountStore, user: &String) -> (known: bool)
    ensures
        known == has_public_key(accounts@, user@),
{
    match accounts.get(user) {
        Some(account) => account.public_key.len() <= OPENSSL_MAX_LEN && rsa_reads_public(
            account.public_key.as_slice(),
        ),
        None => false,
    }
}

/// Whether every name of `names` has an account with a public key that
/// reads as one.
fn all_known(accounts: &AccountStore, names: &Vec<String>) -> (known: bool)
    ensures
        known == forall|i: int|
            0 <= i < names@.len() ==> has_public_key(accounts@, #[trigger] texts(names@)[i]),
{
    let mut i: usize = 0;
    while i < names.len()
        invariant
            i <= names@.len(),
            forall|k: int| 0 <= k < i ==> has_public_key(accounts@, #[trigger] texts(names@)[k]),
        decreases names@.len() - i,
    {
        if !knows_key_of(accounts, &names[i]) {
            assert(!has_public_key(accounts@, texts(names@)[i as int]));
            return false;
        }
        i += 1;
    }
    true
}

/// Whether the owner of `wrapped` recovers `key` from it, as far as `vault`
/// holds a private key for that owner.
fn confirmed(wrapped: &UserKey, vault: &KeyVault, key: &[u8]) -> (yes: bool)
    ensures
        yes == (vault@.contains_key(wrapped.owner@) ==> unwrapped(
            wrapped.key@,
            vault@[wrapped.owner@],
        ) == Some(key@)),
{
    let mut private_key = match vault.get(wrapped.owner.as_str()) {
        Ok(k) => k,
        Err(_) => {
            return true;
        },
    };
    let recovered = wrapped.decrypt(private_key.as_slice());
    wipe(&mut private_key);
    match recovered {
        Ok(mut secret) => {
            let same = constant_time_eq(secret.as_slice(), key);
            wipe(&mut secret);
            same
        },
        Err(_) => false,
    }
}

/// Whether `accounts` holds under `user` an account with a public key:
/// one that OpenSSL reads as the public half of an RSA key pair.
pub open spec fn has_public_key(accounts: Map<Seq<char>, AccountView>, user: Seq<char>) -> bool {
    &&& accounts.contains_key(user)
    &&& accounts[user].public_key.len() <= OPENSSL_MAX_LEN
    &&& rsa_public_readable(accounts[user].public_key)
}

/// Whether `users` may open a conversation: there is at least one, and each
/// has an account with a public key.
pub open spec fn admissible(accounts: Map<Seq<char>, AccountView>, users: Seq<Seq<char>>) -> bool {
    users.len() > 0 && forall|i: int|
        0 <= i < users.len() ==> has_public_key(accounts, #[trigger] users[i])
}

/// The identifier that stands for `bytes`: two lowercase hexadecimal digits
/// for each, the high half first. The bytes are at most as many as leave
/// room for a text of twice their number.
pub fn identifier_of(bytes: &[u8]) -> (id: String)
    requires
        2 * bytes@.len() <= isize::MAX,
    ensures
        id@ == hex_text(bytes@),
        id@.len() == 2 * bytes@.len(),
{
    hex_encode(bytes)
}

/// An eight-digit hexadecimal identifier drawn from the system's random
/// source, or `None` where the source fails.
pub fn rand_hex() -> (id: Option<String>)
    ensures
        id matches Some(text) ==> {
            &&& exists|bytes: Seq<u8>| bytes.len() == ID_LEN && text@ == hex_text(bytes)
            &&& text@.len() == 2 * ID_LEN
        },
{
    match os_random_bytes(ID_LEN) {
        Some(bytes) => Some(identifier_of(bytes.as_slice())),
        None => None,
    }
}

/// What a list of byte strings holds.
pub open spec fn byte_rows(rows: Seq<Vec<u8>>) -> Seq<Seq<u8>> {
    Seq::new(rows.len(), |i: int| rows[i]@)
}

/// Whether every one of `participants` whose private key `vault` holds
/// recovers `key` from the wrapped key at the same position of `wrapped`.
pub open spec fn confirmed_all(
    participants: Seq<Seq<char>>,
    wrapped: Seq<Seq<u8>>,
    vault: Map<Seq<char>, Seq<u8>>,
    key: Seq<u8>,
) -> bool {
    forall|i: int|
        0 <= i < participants.len() && vault.contains_key(#[trigger] participants[i])
            ==> unwrapped(wrapped[i], vault[participants[i]]) == Some(key)
}

/// The conversation that is made of `users`, the identifier `id` and the
/// symmetric key `key` wrapped as `wrapped`, one wrapped key for each
/// participant in the order of first mention.
///
/// In this order: `UnknownParticipant` where `users` is empty or names
/// someone without an account with a public key; `KeyGenFailure` where `key`
/// is not [`AES_KEY_LEN`] bytes long; `StoreConflict` where `id` is taken;
/// `EncryptFailure` where the wrapped keys are not as many as the
/// participants, or a participant whose private key the vault holds does not
/// recover `key` from the one wrapped for it.
pub open spec fn assembled(
    accounts: Map<Seq<char>, AccountView>,
    conversations: Map<Seq<char>, ConversationView>,
    vault: Map<Seq<char>, Seq<u8>>,
    users: Seq<Seq<char>>,
    id: Seq<char>,
    key: Seq<u8>,
    wrapped: Seq<Seq<u8>>,
) -> Result<ConversationView, Error> {
    let participants = deduplicated(users);
    if !admissible(accounts, users) {
        Err(Error::UnknownParticipant)
    } else if key.len() != AES_KEY_LEN {
        Err(Error::KeyGenFailure)
    } else if conversations.contains_key(id) {
        Err(Error::StoreConflict)
    } else if wrapped.len() != participants.len() || !confirmed_all(
        participants,
        wrapped,
        vault,
        key,
    ) {
        Err(Error::EncryptFailure)
    } else {
        Ok(
            ConversationView {
                id,
                users: participants,
                keys: Seq::new(
                    participants.len(),
                    |i: int| UserKeyView { owner: participants[i], key: wrapped[i] },
                ),
                messages: Seq::empty(),
            },
        )
    }
}

/// A conversation that was assembled is well formed, and every participant
/// with a session recovers its key.
pub proof fn law_assembled_opens(
    accounts: Map<Seq<char>, AccountView>,
    conversations: Map<Seq<char>, ConversationView>,
    vault: Map<Seq<char>, Seq<u8>>,
    users: Seq<Seq<char>>,
    id: Seq<char>,
    key: Seq<u8>,
    wrapped: Seq<Seq<u8>>,
)
    requires
        assembled(accounts, conversations, vault, users, id, key, wrapped) is Ok,
    ensures
        well_formed(assembled(accounts, conversations, vault, users, id, key, wrapped)->Ok_0),
        opens_for_sessions(
            assembled(accounts, conversations, vault, users, id, key, wrapped)->Ok_0,
            vault,
            key,
        ),
{
    let c = assembled(accounts, conversations, vault, users, id, key, wrapped)->Ok_0;
    lemma_deduplicated(users);
    assert(well_formed(c));
    assert forall|i: int|
        0 <= i < c.users.len() && vault.contains_key(#[trigger] c.users[i]) implies unwrapped_key(
        c,
        c.users[i],
        vault,
    ) == Ok::<Seq<u8>, Error>(key) by {
        lemma_own_key(c, i);
    }
}

/// Makes of `users`, `id`, `key` and the wrapped keys a conversation and
/// stores it. The outcome is exactly [`assembled`]: on success the
/// conversation is stored under `id`, on failure the store is as it was.
pub fn assemble_conversation(
    accounts: &AccountStore,
    conversations: &mut ConversationStore,
    vault: &KeyVault,
    users: Vec<String>,
    id: String,
    key: &[u8],
    wrapped: Vec<Vec<u8>>,
) -> (out: Result<Conversation, Error>)
    ensures
        assembled(
            accounts@,
            old(conversations)@,
            vault@,
            texts(users@),
            id@,
            key@,
            byte_rows(wrapped@),
        ) matches Ok(c) ==> (out matches Ok(made) && made@ == c) && final(conversations)@ == old(
            conversations,
        )@.insert(id@, c),
        assembled(
            accounts@,
            old(conversations)@,
            vault@,
            texts(users@),
            id@,
            key@,
            byte_rows(wrapped@),
        ) matches Err(e) ==> out == Err::<Conversation, Error>(e) && final(conversations)@ == old(
            conversations,
        )@,
{
    if users.len() == 0 || !all_known(accounts, &users) {
        return Err(Error::UnknownParticipant);
    }
    if key.len() != AES_KEY_LEN {
        return Err(Error::KeyGenFailure);
    }
    if conversations.contains(id.as_str()) {
        return Err(Error::StoreConflict);
    }
    let participants = deduplicate(&users);
    if wrapped.len() != participants.len() {
        return Err(Error::EncryptFailure);
    }
    let ghost rows = byte_rows(wrapped@);
    let mut keys: Vec<UserKey> = Vec::new();
    let mut i: usize = 0;
    while i < participants.len()
        invariant
            i <= participants@.len(),
            keys@.len() == i,
            wrapped@.len() == participants@.len(),
            rows == byte_rows(wrapped@),
            texts(participants@) == deduplicated(texts(users@)),
            admissible(accounts@, texts(users@)),
            key@.len() == AES_KEY_LEN,
            !old(conversations)@.contains_key(id@),
            conversations@ == old(conversations)@,
            forall|k: int|
                0 <= k < i ==> (#[trigger] keys@[k])@ == (UserKeyView {
                    owner: participants@[k]@,
                    key: rows[k],
                }),
            forall|k: int|
                0 <= k < i && vault@.contains_key(#[trigger] texts(participants@)[k])
                    ==> unwrapped(rows[k], vault@[texts(participants@)[k]]) == Some(key@),
        decreases participants@.len() - i,
    {
        let user_key = UserKey {
            owner: participants[i].clone(),
            key: copy_bytes(wrapped[i].as_slice()),
        };
        assert(rows[i as int] == wrapped@[i as int]@);
        assert(texts(participants@)[i as int] == participants@[i as int]@);
        if !confirmed(&user_key, vault, key) {
            assert(!confirmed_all(texts(participants@), rows, vault@, key@));
            return Err(Error::EncryptFailure);
        }
        keys.push(user_key);
        i += 1;
    }
    assert(confirmed_all(texts(participants@), rows, vault@, key@));
    let conversation = Conversation { id, users: participants, keys, messages: Vec::new() };
    proof {
        let c = conversation@;
        assert(c.messages =~= Seq::<Seq<u8>>::empty());
        assert(c.keys =~= Seq::new(
            c.users.len(),
            |k: int| UserKeyView { owner: c.users[k], key: rows[k] },
        )) by {
            assert forall|k: int| 0 <= k < c.keys.len() implies c.keys[k] == (UserKeyView {
                owner: c.users[k],
                key: rows[k],
            }) by {
                assert(c.keys[k] == conversation.keys@[k]@);
                assert(c.users[k] == conversation.users@[k]@);
            }
        }
    }
    let stored = conversation.duplicate();
    let added = conversations.insert(conversation);
    assert(added);
    Ok(stored)
}

/// Opens a conversation among `users` under the identifier `id` and the
/// symmetric key `key`: wraps the key for every participant and stores the
/// conversation that [`assemble_conversation`] makes of the wrapped keys.
///
/// In this order: `UnknownParticipant` where `users` is empty or names
/// someone without an account with a public key; `KeyGenFailure` where `key`
/// is not [`AES_KEY_LEN`] bytes long; `StoreConflict` where `id` is taken. Past
/// these the only failure is `EncryptFailure`: OpenSSL refuses to wrap the
/// key for a participant, or a participant whose private key the vault holds
/// does not get the key back from what was wrapped. Every failure leaves the
/// store as it was.
///
/// Whatever the wrapped keys came to, the conversation that comes back is
/// stored under `id`, has no messages, lists each user once in the order of
/// first mention, and holds one wrapped key per participant, at the
/// participant's position. Every participant with a session recovers `key`
/// from it.
pub fn open_conversation(
    accounts: &AccountStore,
    conversations: &mut ConversationStore,
    vault: &KeyVault,
    users: Vec<String>,
    id: String,
    key: &[u8],
) -> (out: Result<Conversation, Error>)
    ensures
        !admissible(accounts@, texts(users@)) <==> out == Err::<Conversation, Error>(
            Error::UnknownParticipant,
        ),
        admissible(accounts@, texts(users@)) && key@.len() != AES_KEY_LEN <==> out == Err::<
            Conversation,
            Error,
        >(Error::KeyGenFailure),
        admissible(accounts@, texts(users@)) && key@.len() == AES_KEY_LEN && old(
            conversations,
        )@.contains_key(id@) <==> out == Err::<Conversation, Error>(Error::StoreConflict),
        out matches Err(e) ==> (e == Error::UnknownParticipant || e == Error::KeyGenFailure || e
            == Error::StoreConflict || e == Error::EncryptFailure) && final(conversations)@ == old(
            conversations,
        )@,
        out matches Ok(c) ==> {
            &&& exists|wrapped: Seq<Seq<u8>>| #[trigger]
                assembled(
                    accounts@,
                    old(conversations)@,
                    vault@,
                    texts(users@),
                    id@,
                    key@,
                    wrapped,
                ) == Ok::<ConversationView, Error>(c@)
            &&& c@.id == id@
            &&& c@.users == deduplicated(texts(users@))
            &&& c@.messages.len() == 0
            &&& well_formed(c@)
            &&& opens_for_sessions(c@, vault@, key@)
            &&& final(conversations)@ == old(conversations)@.insert(id@, c@)
        },
{
    if users.len() == 0 || !all_known(accounts, &users) {
        return Err(Error::UnknownParticipant);
    }
    if key.len() != AES_KEY_LEN {
        return Err(Error::KeyGenFailure);
    }
    if conversations.contains(id.as_str()) {
        return Err(Error::StoreConflict);
    }
    let participants = deduplicate(&users);
    proof {
        lemma_deduplicated(texts(users@));
    }
    let mut wrapped: Vec<Vec<u8>> = Vec::new();
    let mut i: usize = 0;
    while i < participants.len()
        invariant
            i <= participants@.len(),
            texts(participants@) == deduplicated(texts(users@)),
            admissible(accounts@, texts(users@)),
            key@.len() == AES_KEY_LEN,
            !old(conversations)@.contains_key(id@),
            conversations@ == old(conversations)@,
            forall|name: Seq<char>|
                deduplicated(texts(users@)).contains(name) <==> texts(users@).contains(name),
        decreases participants@.len() - i,
    {
        proof {
            let name = texts(participants@)[i as int];
            assert(deduplicated(texts(users@)).contains(name));
            assert(texts(users@).contains(name));
            let k = choose|k: int| 0 <= k < texts(users@).len() && texts(users@)[k] == name;
            assert(has_public_key(accounts@, texts(users@)[k]));
        }
        match UserKey::encrypt(accounts, key, &participants[i]) {
            Ok(user_key) => {
                wrapped.push(user_key.key);
            },
            Err(_) => {
                return Err(Error::EncryptFailure);
            },
        }
        i += 1;
    }
    let ghost rows = byte_rows(wrapped@);
    let out = assemble_conversation(accounts, conversations, vault, users, id, key, wrapped);
    proof {
        if out is Ok {
            law_assembled_opens(
                accounts@,
                old(conversations)@,
                vault@,
                texts(users@),
                id@,
                key@,
                rows,
            );
        }
    }
    out
}

/// Creates a conversation among `users`: draws a symmetric key of
/// [`AES_KEY_LEN`] bytes and an identifier, wraps the key for every
/// participant, and stores the conversation.
///
/// `UnknownParticipant` exactly where `users` is empty or names someone
/// without an account with a public key. Whatever was drawn, every failure
/// leaves the store as it was, and a conversation that comes back is stored under its identifier,
/// has no messages, lists each user once in the order of first mention, and
/// holds one wrapped key per participant, from which every participant with
/// a session recovers one and the same key of [`AES_KEY_LEN`] bytes.
pub fn create_conversation(
    accounts: &AccountStore,
    conversations: &mut ConversationStore,
    vault: &KeyVault,
    users: Vec<String>,
) -> (out: Result<Conversation, Error>)
    ensures
        !admissible(accounts@, texts(users@)) <==> out == Err::<Conversation, Error>(
            Error::UnknownParticipant,
        ),
        out matches Err(e) ==> (e == Error::UnknownParticipant || e == Error::KeyGenFailure || e
            == Error::StoreConflict || e == Error::EncryptFailure) && final(conversations)@ == old(
            conversations,
        )@,
        out matches Ok(c) ==> {
            &&& !old(conversations)@.contains_key(c@.id)
            &&& c@.id.len() == 2 * ID_LEN
            &&& c@.users == deduplicated(texts(users@))
            &&& c@.messages.len() == 0
            &&& well_formed(c@)
            &&& exists|key: Seq<u8>|
                key.len() == AES_KEY_LEN && #[trigger] opens_for_sessions(c@, vault@, key)
            &&& final(conversations)@ == old(conversations)@.insert(c@.id, c@)
        },
{
    if users.len() == 0 || !all_known(accounts, &users) {
        return Err(Error::UnknownParticipant);
    }
    let mut key = match random_bytes(AES_KEY_LEN) {
        Some(k) => k,
        None => {
            return Err(Error::KeyGenFailure);
        },
    };
    let id = match rand_hex() {
        Some(text) => text,
        None => {
            wipe(&mut key);
            return Err(Error::KeyGenFailure);
        },
    };
    let ghost secret = key@;
    let out = open_conversation(accounts, conversations, vault, users, id, key.as_slice());
    wipe(&mut key);
    proof {
        if out is Ok {
            assert(opens_for_sessions(out->Ok_0@, vault@, secret));
        }
    }
    out
}

} // verus!
