//! Conversations and the store that keeps one conversation per identifier.

use crate::bytes::copy_bytes;
use crate::cipher::EncryptedMessage;
use crate::table::Table;
use crate::text::{copy_names, texts};
use vstd::prelude::*;

verus! {

/// The conversation key, wrapped for one participant under that
/// participant's public key.
#[derive(Clone, Debug, PartialEq, Eq)]
pub struct UserKey {
    pub owner: String,
    pub key: Vec<u8>,
}

/// What a [`UserKey`] holds.
pub struct UserKeyView {
    pub owner: Seq<char>,
    pub key: Seq<u8>,
}

impl View for UserKey {
    type V = UserKeyView;

    open spec fn view(&self) -> UserKeyView {
        UserKeyView { owner: self.owner@, key: self.key@ }
    }
}

/// A conversation: its participants, the conversation key wrapped once for
/// each of them, and the encrypted messages in the order they were sent.
#[derive(Clone, Debug, PartialEq, Eq)]
pub struct Conversation {
    pub id: String,
    pub users: Vec<String>,
    pub keys: Vec<UserKey>,
    pub messages: Vec<EncryptedMessage>,
}

/// What a [`Conversation`] holds.
pub struct ConversationView {
    pub id: Seq<char>,
    pub users: Seq<Seq<char>>,
    pub keys: Seq<UserKeyView>,
    pub messages: Seq<Seq<u8>>,
}

/// What a list of wrapped keys holds.
pub open spec fn key_views(keys: Seq<UserKey>) -> Seq<UserKeyView> {
    Seq::new(keys.len(), |i: int| keys[i]@)
}

/// What a list of stored messages holds.
pub open spec fn message_views(messages: Seq<EncryptedMessage>) -> Seq<Seq<u8>> {
    Seq::new(messages.len(), |i: int| messages[i]@)
}

impl View for Conversation {
    type V = ConversationView;

    open spec fn view(&self) -> ConversationView {
        ConversationView {
            id: self.id@,
            users: texts(self.users@),
            keys: key_views(self.keys@),
            messages: message_views(self.messages@),
        }
    }
}

/// Every participant occurs once and owns the wrapped key at its own position.
pub open spec fn well_formed(c: ConversationView) -> bool {
    &&& c.users.no_duplicates()
    &&& c.keys.len() == c.users.len()
    &&& forall|i: int| 0 <= i < c.users.len() ==> (#[trigger] c.keys[i]).owner == c.users[i]
}

/// `c` with `message` added behind its messages, and nothing else changed.
pub open spec fn with_message(c: ConversationView, message: Seq<u8>) -> ConversationView {
    ConversationView { messages: c.messages.push(message), ..c }
}

/// A conversation only grows: adding a message leaves the participants, the
/// wrapped keys and every message that was there as they were, in place.
pub proof fn law_messages_only_grow(c: ConversationView, message: Seq<u8>)
    ensures
        with_message(c, message).id == c.id,
        with_message(c, message).users == c.users,
        with_message(c, message).keys == c.keys,
        with_message(c, message).messages.len() == c.messages.len() + 1,
        with_message(c, message).messages.subrange(0, c.messages.len() as int) == c.messages,
        with_message(c, message).messages.last() == message,
        well_formed(c) ==> well_formed(with_message(c, message)),
{
}

impl UserKey {
    /// A copy of this wrapped key.
    pub fn duplicate(&self) -> (copy: UserKey)
        ensures
            copy@ == self@,
    {
        UserKey { owner: self.owner.clone(), key: copy_bytes(self.key.as_slice()) }
    }
}

impl EncryptedMessage {
    /// A copy of this stored message.
    pub fn duplicate(&self) -> (copy: EncryptedMessage)
        ensures
            copy@ == self@,
    {
        EncryptedMessage { data: copy_bytes(self.data.as_slice()) }
    }
}

/// A copy of a list of wrapped keys.
fn copy_keys(keys: &Vec<UserKey>) -> (out: Vec<UserKey>)
    ensures
        key_views(out@) == key_views(keys@),
{
    let mut out: Vec<UserKey> = Vec::new();
    let mut i: usize = 0;
    while i < keys.len()
        invariant
            i <= keys@.len(),
            out@.len() == i,
            forall|k: int| 0 <= k < i ==> out@[k]@ == keys@[k]@,
        decreases keys@.len() - i,
    {
        out.push(keys[i].duplicate());
        i += 1;
    }
    out
}

/// A copy of a list of stored messages.
fn copy_messages(messages: &Vec<EncryptedMessage>) -> (out: Vec<EncryptedMessage>)
    ensures
        message_views(out@) == message_views(messages@),
{
    let mut out: Vec<EncryptedMessage> = Vec::new();
    let mut i: usize = 0;
    while i < messages.len()
        invariant
            i <= messages@.len(),
            out@.len() == i,
            forall|k: int| 0 <= k < i ==> out@[k]@ == messages@[k]@,
        decreases messages@.len() - i,
    {
        out.push(messages[i].duplicate());
        i += 1;
    }
    out
}

impl Conversation {
    /// A copy of this conversation.
    pub fn duplicate(&self) -> (copy: Conversation)
        ensures
            copy@ == self@,
    {
        Conversation {
            id: self.id.clone(),
            users: copy_names(&self.users),
            keys: copy_keys(&self.keys),
            messages: copy_messages(&self.messages),
        }
    }

    /// The conversation stored under `id`, if there is one.
    pub fn get(store: &ConversationStore, id: &str) -> (found: Option<Conversation>)
        ensures
            found matches Some(c) ==> (store@.contains_key(id@) && c@ == store@[id@]),
            found is None ==> !store@.contains_key(id@),
    {
        match store.find(id) {
            Some(conversation) => Some(conversation.duplicate()),
            None => None,
        }
    }
}

/// The conversations, one per identifier. Messages are only ever added behind
/// those a conversation already has.
///
/// Its view is the map from each identifier to what its conversation holds.
pub struct ConversationStore {
    table: Table<Conversation>,
}

/// The map from each identifier to what its conversation holds.
pub open spec fn conversation_views(conversations: Map<Seq<char>, Conversation>) -> Map<
    Seq<char>,
    ConversationView,
> {
    conversations.map_values(|c: Conversation| c@)
}

impl ConversationStore {
    #[verifier::type_invariant]
    spec fn filed_under_id(self) -> bool {
        forall|id: Seq<char>| #[trigger]
            self.table@.contains_key(id) ==> self.table@[id].id@ == id
    }

    /// The conversations by identifier.
    pub closed spec fn conversations(&self) -> Map<Seq<char>, Conversation> {
        self.table@
    }

    /// The map from each identifier to what its conversation holds.
    pub open spec fn view(&self) -> Map<Seq<char>, ConversationView> {
        conversation_views(self.conversations())
    }

    /// A store without conversations.
    pub fn new() -> (store: Self)
        ensures
            store@ == Map::<Seq<char>, ConversationView>::empty(),
    {
        ConversationStore { table: Table::new() }
    }

    /// The number of conversations.
    pub fn len(&self) -> (n: usize)
        ensures
            self@.dom().finite(),
            n == self@.dom().len(),
    {
        assert(self@.dom() =~= self.table@.dom());
        self.table.len()
    }

    /// Whether a conversation is stored under `id`.
    pub fn contains(&self, id: &str) -> (found: bool)
        ensures
            found == self@.contains_key(id@),
    {
        let name = id.to_owned();
        self.table.contains(&name)
    }

    /// The conversation stored under `id`.
    pub fn find(&self, id: &str) -> (found: Option<&Conversation>)
        ensures
            found matches Some(c) ==> (self@.contains_key(id@) && c@ == self@[id@] && c.id@ == id@),
            found is None ==> !self@.contains_key(id@),
    {
        proof {
            use_type_invariant(self);
        }
        let name = id.to_owned();
        self.table.get(&name)
    }

    /// Stores `conversation` under its identifier unless that is taken; says
    /// whether it did.
    pub fn insert(&mut self, conversation: Conversation) -> (added: bool)
        ensures
            added == !old(self)@.contains_key(conversation.id@),
            added ==> final(self)@ == old(self)@.insert(conversation.id@, conversation@),
            !added ==> final(self)@ == old(self)@,
    {
        proof {
            use_type_invariant(&*self);
        }
        let mut table: Table<Conversation> = Table::new();
        core::mem::swap(&mut self.table, &mut table);
        let name = conversation.id.clone();
        let added = table.insert(name, conversation);
        core::mem::swap(&mut self.table, &mut table);
        added
    }

    /// Adds `message` behind the messages of the conversation stored under
    /// `id`, in one step; says whether there was such a conversation.
    pub fn append_message(&mut self, id: &str, message: EncryptedMessage) -> (added: bool)
        ensures
            added == old(self)@.contains_key(id@),
            added ==> final(self)@ == old(self)@.insert(
                id@,
                with_message(old(self)@[id@], message@),
            ),
            !added ==> final(self)@ == old(self)@,
    {
        proof {
            use_type_invariant(&*self);
        }
        let name = id.to_owned();
        let mut table: Table<Conversation> = Table::new();
        core::mem::swap(&mut self.table, &mut table);
        let added = match table.remove(&name) {
            Some(mut conversation) => {
                let ghost before = conversation@;
                conversation.messages.push(message);
                assert(conversation@.messages =~= before.messages.push(message@));
                table.insert(name, conversation)
            },
            None => false,
        };
        core::mem::swap(&mut self.table, &mut table);
        added
    }
}

} // verus!
