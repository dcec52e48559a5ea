//! Sending and receiving: the envelope and the cipher put together over the
//! stored conversations.

use crate::bytes::{copy_bytes, wipe};
use crate::cipher::{decrypt, encrypt, encrypt_with_iv, opened, sealed};
use crate::conversation::{well_formed, with_message, ConversationStore, ConversationView};
use crate::envelope::{opens_for_sessions, unwrap_key, unwrapped_key};
use crate::error::Error;
use crate::message::{framable, RawMessage, RawMessageView};
use crate::primitives::AES_KEY_LEN;
use crate::vault::KeyVault;
use vstd::prelude::*;

verus! {

/// What a list of messages holds.
pub open spec fn raw_views(messages: Seq<RawMessage>) -> Seq<RawMessageView> {
    Seq::new(messages.len(), |i: int| messages[i]@)
}

/// Whether every stored message of `messages` opens under `key`.
pub open spec fn all_open(messages: Seq<Seq<u8>>, key: Seq<u8>) -> bool {
    forall|i: int| 0 <= i < messages.len() ==> opened(#[trigger] messages[i], key) is Some
}

/// The messages that `messages` hold under `key`, in stored order.
pub open spec fn opened_all(messages: Seq<Seq<u8>>, key: Seq<u8>) -> Seq<RawMessageView> {
    Seq::new(messages.len(), |i: int| opened(messages[i], key).unwrap())
}

/// What `caller` reads in conversation `c`: every stored message in stored
/// order, or the reason for which nothing is handed out.
///
/// The caller's key is recovered as [`unwrapped_key`] says, and its failures
/// are passed on. One stored message that does not open makes the whole read
/// a `DecryptFailure`.
pub open spec fn received(
    c: ConversationView,
    caller: Seq<char>,
    vault: Map<Seq<char>, Seq<u8>>,
) -> Result<Seq<RawMessageView>, Error> {
    match unwrapped_key(c, caller, vault) {
        Err(e) => Err(e),
        Ok(key) => if all_open(c.messages, key) {
            Ok(opened_all(c.messages, key))
        } else {
            Err(Error::DecryptFailure)
        },
    }
}

/// A conversation that opens under a key still does when a message that
/// opens under the key is added.
pub proof fn law_readable_stays_readable(c: ConversationView, key: Seq<u8>, stored: Seq<u8>)
    requires
        all_open(c.messages, key),
        opened(stored, key) is Some,
    ensures
        all_open(with_message(c, stored).messages, key),
        opened_all(with_message(c, stored).messages, key) == opened_all(c.messages, key).push(
            opened(stored, key).unwrap(),
        ),
{
    let after = with_message(c, stored);
    assert forall|i: int| 0 <= i < after.messages.len() implies opened(
        #[trigger] after.messages[i],
        key,
    ) is Some by {
        if i < c.messages.len() {
            assert(after.messages[i] == c.messages[i]);
        }
    }
    assert(opened_all(after.messages, key) =~= opened_all(c.messages, key).push(
        opened(stored, key).unwrap(),
    ));
}

/// What one participant sends, another participant reads: where both recover
/// the same conversation key and the reader could read the conversation
/// before, the reader finds the new message, as it was sent, behind the
/// messages that were there.
pub proof fn law_send_then_receive(
    c: ConversationView,
    vault: Map<Seq<char>, Seq<u8>>,
    sender: Seq<char>,
    reader: Seq<char>,
    message: RawMessageView,
    stored: Seq<u8>,
)
    requires
        unwrapped_key(c, sender, vault) matches Ok(key) && opened(stored, key) == Some(message),
        unwrapped_key(c, reader, vault) == unwrapped_key(c, sender, vault),
        received(c, reader, vault) is Ok,
    ensures
        received(with_message(c, stored), reader, vault) == Ok::<Seq<RawMessageView>, Error>(
            received(c, reader, vault)->Ok_0.push(message),
        ),
{
    let key = unwrapped_key(c, reader, vault)->Ok_0;
    assert(unwrapped_key(with_message(c, stored), reader, vault) == unwrapped_key(
        c,
        reader,
        vault,
    ));
    law_readable_stays_readable(c, key, stored);
}

/// What becomes of conversation `c` when `message` is uploaded under the
/// initialisation vector `iv`: the conversation with the sealed message
/// behind its messages, or the reason for which nothing is added.
///
/// The sender's key is recovered as [`unwrapped_key`] says and its failures
/// are passed on; past that, `EncryptFailure` exactly where [`sealed`] is `None`.
pub open spec fn uploaded(
    c: ConversationView,
    vault: Map<Seq<char>, Seq<u8>>,
    message: RawMessageView,
    iv: Seq<u8>,
) -> Result<ConversationView, Error> {
    match unwrapped_key(c, message.sender, vault) {
        Err(e) => Err(e),
        Ok(key) => match sealed(message, key, iv) {
            Some(data) => Ok(with_message(c, data)),
            None => Err(Error::EncryptFailure),
        },
    }
}

/// What was uploaded is the conversation with one message more, which opens
/// under the sender's conversation key to the message that was uploaded.
pub proof fn law_upload_reads_back(
    c: ConversationView,
    vault: Map<Seq<char>, Seq<u8>>,
    message: RawMessageView,
    iv: Seq<u8>,
)
    requires
        uploaded(c, vault, message, iv) is Ok,
    ensures
        ({
            let key = unwrapped_key(c, message.sender, vault)->Ok_0;
            let stored = sealed(message, key, iv).unwrap();
            &&& uploaded(c, vault, message, iv)->Ok_0 == with_message(c, stored)
            &&& opened(stored, key) == Some(message)
        }),
{
    crate::cipher::law_sealed_opens(
        message,
        unwrapped_key(c, message.sender, vault)->Ok_0,
        iv,
    );
}

/// Between two participants with a session, a message arrives as it was
/// sent. In a conversation as [`create_conversation`] leaves it, holding
/// messages that all open under its key, a message that its sender uploads is
/// read by the reader behind the messages that were there, and reads as it
/// was sent.
///
/// [`create_conversation`]: crate::envelope::create_conversation
pub proof fn law_exchange_between_sessions(
    c: ConversationView,
    vault: Map<Seq<char>, Seq<u8>>,
    key: Seq<u8>,
    reader: Seq<char>,
    message: RawMessageView,
    iv: Seq<u8>,
)
    requires
        well_formed(c),
        opens_for_sessions(c, vault, key),
        c.users.contains(message.sender) && vault.contains_key(message.sender),
        c.users.contains(reader) && vault.contains_key(reader),
        all_open(c.messages, key),
        uploaded(c, vault, message, iv) is Ok,
    ensures
        received(c, reader, vault) == Ok::<Seq<RawMessageView>, Error>(
            opened_all(c.messages, key),
        ),
        received(uploaded(c, vault, message, iv)->Ok_0, reader, vault) == Ok::<
            Seq<RawMessageView>,
            Error,
        >(opened_all(c.messages, key).push(message)),
{
    let s = choose|i: int| 0 <= i < c.users.len() && c.users[i] == message.sender;
    let r = choose|i: int| 0 <= i < c.users.len() && c.users[i] == reader;
    assert(unwrapped_key(c, c.users[s], vault) == Ok::<Seq<u8>, Error>(key));
    assert(unwrapped_key(c, c.users[r], vault) == Ok::<Seq<u8>, Error>(key));
    law_upload_reads_back(c, vault, message, iv);
    law_send_then_receive(
        c,
        vault,
        message.sender,
        reader,
        message,
        sealed(message, key, iv).unwrap(),
    );
}

/// Encrypts `message` with the conversation key of its sender under the
/// initialisation vector `iv`, and adds it behind the messages of the
/// conversation stored under `convo_id`.
///
/// `UnknownConversation` where no conversation is stored under `convo_id`;
/// else exactly [`uploaded`]. Every failure leaves the store as it was.
pub fn upload_message_with_iv(
    conversations: &mut ConversationStore,
    vault: &KeyVault,
    message: &RawMessage,
    convo_id: &str,
    iv: &[u8],
) -> (out: Result<(), Error>)
    ensures
        !old(conversations)@.contains_key(convo_id@) ==> out == Err::<(), Error>(
            Error::UnknownConversation,
        ) && final(conversations)@ == old(conversations)@,
        old(conversations)@.contains_key(convo_id@) ==> match uploaded(
            old(conversations)@[convo_id@],
            vault@,
            message@,
            iv@,
        ) {
            Ok(c) => out is Ok && final(conversations)@ == old(conversations)@.insert(convo_id@, c),
            Err(e) => out == Err::<(), Error>(e) && final(conversations)@ == old(conversations)@,
        },
{
    let mut key = match sender_key(conversations, vault, message, convo_id) {
        Ok(k) => k,
        Err(e) => {
            return Err(e);
        },
    };
    let outcome = encrypt_with_iv(message, key.as_slice(), iv);
    wipe(&mut key);
    match outcome {
        Ok(encrypted) => {
            conversations.append_message(convo_id, encrypted);
            Ok(())
        },
        Err(e) => Err(e),
    }
}

/// The conversation key of the sender of `message` in the conversation
/// stored under `convo_id`.
fn sender_key(
    conversations: &ConversationStore,
    vault: &KeyVault,
    message: &RawMessage,
    convo_id: &str,
) -> (out: Result<Vec<u8>, Error>)
    ensures
        !conversations@.contains_key(convo_id@) ==> out == Err::<Vec<u8>, Error>(
            Error::UnknownConversation,
        ),
        conversations@.contains_key(convo_id@) ==> match unwrapped_key(
            conversations@[convo_id@],
            message.sender@,
            vault@,
        ) {
            Ok(k) => out matches Ok(key) && key@ == k,
            Err(e) => out == Err::<Vec<u8>, Error>(e),
        },
{
    match conversations.find(convo_id) {
        Some(conversation) => unwrap_key(conversation, message.sender.as_str(), vault),
        None => Err(Error::UnknownConversation),
    }
}

/// Encrypts `message` with the conversation key of its sender, under a fresh
/// initialisation vector, and adds it behind the messages of the
/// conversation stored under `convo_id`.
///
/// `UnknownConversation` exactly where no conversation is stored under
/// `convo_id`. Else the sender's key is recovered as [`unwrapped_key`] says
/// and its failures are passed on. Past that the only failure is
/// `EncryptFailure`, which a key of the wrong length and a message too long
/// to frame always are. Every failure leaves the store as it was. On success
/// exactly one stored message was added, behind the others, and it opens,
/// under the sender's conversation key, to `message`.
pub fn upload_message(
    conversations: &mut ConversationStore,
    vault: &KeyVault,
    message: &RawMessage,
    convo_id: &str,
) -> (out: Result<(), Error>)
    ensures
        !old(conversations)@.contains_key(convo_id@) <==> out == Err::<(), Error>(
            Error::UnknownConversation,
        ),
        out is Err ==> final(conversations)@ == old(conversations)@,
        out is Ok ==> exists|iv: Seq<u8>|
            (#[trigger] uploaded(old(conversations)@[convo_id@], vault@, message@, iv)) is Ok
                && final(conversations)@ == old(conversations)@.insert(
                convo_id@,
                uploaded(old(conversations)@[convo_id@], vault@, message@, iv)->Ok_0,
            ),
        old(conversations)@.contains_key(convo_id@) ==> match unwrapped_key(
            old(conversations)@[convo_id@],
            message.sender@,
            vault@,
        ) {
            Err(e) => out == Err::<(), Error>(e),
            Ok(key) => {
                &&& key.len() != AES_KEY_LEN || !framable(message@) ==> out is Err
                &&& out == Err::<(), Error>(Error::EncryptFailure) || (out is Ok
                    && exists|stored: Seq<u8>|
                    opened(stored, key) == Some(message@) && final(conversations)@ == old(
                        conversations,
                    )@.insert(convo_id@, with_message(old(conversations)@[convo_id@], stored)))
            },
        },
{
    let mut key = match sender_key(conversations, vault, message, convo_id) {
        Ok(k) => k,
        Err(e) => {
            return Err(e);
        },
    };
    let ghost secret = key@;
    let outcome = encrypt(message, key.as_slice());
    wipe(&mut key);
    let encrypted = match outcome {
        Ok(e) => e,
        Err(_) => {
            return Err(Error::EncryptFailure);
        },
    };
    let ghost stored = encrypted@;
    let added = conversations.append_message(convo_id, encrypted);
    assert(added);
    assert(opened(stored, secret) == Some(message@));
    proof {
        let iv = choose|iv: Seq<u8>| sealed(message@, secret, iv) == Some(stored);
        assert(uploaded(old(conversations)@[convo_id@], vault@, message@, iv) == Ok::<
            ConversationView,
            Error,
        >(with_message(old(conversations)@[convo_id@], stored)));
    }
    Ok(())
}

/// The message that `sender` sends with `content` at `time`.
pub open spec fn composed(sender: Seq<char>, content: Seq<u8>, time: Seq<char>) -> RawMessageView {
    RawMessageView { sender, message: content, time }
}

/// The first message of a conversation arrives whole. In a conversation
/// without messages, as [`create_conversation`] leaves it while sender and
/// reader both hold a session, what the sender sends with `content` at
/// `time` is all the reader reads: one message, with that sender, that
/// content and that time.
///
/// [`create_conversation`]: crate::envelope::create_conversation
pub proof fn law_first_message_arrives(
    c: ConversationView,
    vault: Map<Seq<char>, Seq<u8>>,
    key: Seq<u8>,
    sender: Seq<char>,
    reader: Seq<char>,
    content: Seq<u8>,
    time: Seq<char>,
    iv: Seq<u8>,
)
    requires
        well_formed(c),
        c.messages.len() == 0,
        opens_for_sessions(c, vault, key),
        c.users.contains(sender) && vault.contains_key(sender),
        c.users.contains(reader) && vault.contains_key(reader),
        uploaded(c, vault, composed(sender, content, time), iv) is Ok,
    ensures
        received(
            uploaded(c, vault, composed(sender, content, time), iv)->Ok_0,
            reader,
            vault,
        ) == Ok::<Seq<RawMessageView>, Error>(seq![composed(sender, content, time)]),
{
    law_exchange_between_sessions(c, vault, key, reader, composed(sender, content, time), iv);
    assert(opened_all(c.messages, key).push(composed(sender, content, time)) =~= seq![
        composed(sender, content, time),
    ]);
}

/// Sends `content` from `sender` into the conversation stored under
/// `conversation_id`, stamped with `time`, which the caller reads off the
/// clock.
///
/// The outcome is that of [`upload_message`] for the message made of
/// `sender`, `content` and `time`.
pub fn send_message(
    conversations: &mut ConversationStore,
    vault: &KeyVault,
    conversation_id: &str,
    sender: &str,
    content: &[u8],
    time: &str,
) -> (out: Result<(), Error>)
    ensures
        !old(conversations)@.contains_key(conversation_id@) <==> out == Err::<(), Error>(
            Error::UnknownConversation,
        ),
        out is Err ==> final(conversations)@ == old(conversations)@,
        out is Ok ==> exists|iv: Seq<u8>|
            (#[trigger] uploaded(
                old(conversations)@[conversation_id@],
                vault@,
                composed(sender@, content@, time@),
                iv,
            )) is Ok && final(conversations)@ == old(conversations)@.insert(
                conversation_id@,
                uploaded(
                    old(conversations)@[conversation_id@],
                    vault@,
                    composed(sender@, content@, time@),
                    iv,
                )->Ok_0,
            ),
        old(conversations)@.contains_key(conversation_id@) ==> match unwrapped_key(
            old(conversations)@[conversation_id@],
            sender@,
            vault@,
        ) {
            Err(e) => out == Err::<(), Error>(e),
            Ok(key) => {
                &&& key.len() != AES_KEY_LEN || !framable(composed(sender@, content@, time@))
                    ==> out is Err
                &&& out == Err::<(), Error>(Error::EncryptFailure) || (out is Ok
                    && exists|stored: Seq<u8>|
                    opened(stored, key) == Some(composed(sender@, content@, time@))
                        && final(conversations)@ == old(conversations)@.insert(
                        conversation_id@,
                        with_message(old(conversations)@[conversation_id@], stored),
                    ))
            },
        },
{
    let message = RawMessage {
        sender: sender.to_owned(),
        message: copy_bytes(content),
        time: time.to_owned(),
    };
    assert(message@ == composed(sender@, content@, time@));
    upload_message(conversations, vault, &message, conversation_id)
}

/// Decrypts every message of the conversation stored under `convo_id` for
/// `caller`, in stored order.
///
/// `UnknownConversation` where no conversation is stored under `convo_id`;
/// else exactly [`received`]. Nothing is changed, and a further call is
/// needed to see what was sent since.
pub fn receive_messages(
    conversations: &ConversationStore,
    vault: &KeyVault,
    caller: &str,
    convo_id: &str,
) -> (out: Result<Vec<RawMessage>, Error>)
    ensures
        !conversations@.contains_key(convo_id@) ==> out == Err::<Vec<RawMessage>, Error>(
            Error::UnknownConversation,
        ),
        conversations@.contains_key(convo_id@) ==> match received(
            conversations@[convo_id@],
            caller@,
            vault@,
        ) {
            Ok(messages) => out matches Ok(list) && raw_views(list@) == messages,
            Err(e) => out == Err::<Vec<RawMessage>, Error>(e),
        },
{
    let conversation = match conversations.find(convo_id) {
        Some(c) => c,
        None => {
            return Err(Error::UnknownConversation);
        },
    };
    let mut key = match unwrap_key(conversation, caller, vault) {
        Ok(k) => k,
        Err(e) => {
            return Err(e);
        },
    };
    let ghost secret = key@;
    let mut messages: Vec<RawMessage> = Vec::new();
    let mut i: usize = 0;
    while i < conversation.messages.len()
        invariant
            i <= conversation.messages@.len(),
            messages@.len() == i,
            conversations@.contains_key(convo_id@),
            conversation@ == conversations@[convo_id@],
            key@ == secret,
            unwrapped_key(conversation@, caller@, vault@) == Ok::<Seq<u8>, Error>(secret),
            forall|k: int|
                0 <= k < i ==> opened(#[trigger] conversation@.messages[k], key@) == Some(
                    messages@[k]@,
                ),
        decreases conversation.messages@.len() - i,
    {
        assert(conversation@.messages[i as int] == conversation.messages@[i as int]@);
        match decrypt(&conversation.messages[i], key.as_slice()) {
            Ok(message) => {
                messages.push(message);
            },
            Err(_) => {
                assert(!all_open(conversation@.messages, secret));
                wipe(&mut key);
                return Err(Error::DecryptFailure);
            },
        }
        i += 1;
    }
    wipe(&mut key);
    assert(all_open(conversation@.messages, secret));
    assert(raw_views(messages@) =~= opened_all(conversation@.messages, secret));
    Ok(messages)
}

} // verus!
