use crim::account::{Account, AccountStore};
use crim::cipher::EncryptedMessage;
use crim::conversation::{Conversation, ConversationStore, UserKey};
use crim::cipher::encrypt_with_iv;
use crim::envelope::{
    assemble_conversation, create_conversation, deduplicate, identifier_of, knows_key_of,
    open_conversation, rand_hex, unwrap_key,
};
use crim::error::Error;
use crim::identity::{login, register};
use crim::message::RawMessage;
use crim::relay::{receive_messages, send_message, upload_message, upload_message_with_iv};
use crim::vault::KeyVault;

fn names(list: &[&str]) -> Vec<String> {
    list.iter().map(|s| s.to_string()).collect()
}

struct World {
    accounts: AccountStore,
    conversations: ConversationStore,
    vault: KeyVault,
}

fn world(users: &[(&str, &str)]) -> World {
    let mut accounts = AccountStore::new();
    let mut vault = KeyVault::new();
    for (name, password) in users {
        register(&mut accounts, name, password).expect("registration");
        login(&accounts, &mut vault, name, password).expect("login");
    }
    World { accounts, conversations: ConversationStore::new(), vault }
}

#[test]
fn conversation_holds_one_wrapped_key_per_participant() {
    let mut w = world(&[("alice", "pw1"), ("bob", "pw2")]);
    let c = create_conversation(
        &w.accounts,
        &mut w.conversations,
        &w.vault,
        names(&["alice", "bob"]),
    )
    .expect("conversation");
    assert_eq!(c.users, names(&["alice", "bob"]));
    assert_eq!(c.keys.len(), 2);
    assert_eq!(c.keys[0].owner, "alice");
    assert_eq!(c.keys[1].owner, "bob");
    // A 2048-bit modulus wraps into 256 bytes.
    assert_eq!(c.keys[0].key.len(), 256);
    assert_eq!(c.keys[1].key.len(), 256);
    assert_ne!(c.keys[0].key, c.keys[1].key);
    assert!(c.messages.is_empty());
    assert_eq!(Conversation::get(&w.conversations, &c.id), Some(c.clone()));
    assert_eq!(w.conversations.len(), 1);
}

#[test]
fn outsider_is_not_a_participant() {
    let mut w = world(&[("alice", "pw1"), ("bob", "pw2"), ("carol", "pw3")]);
    let c = create_conversation(
        &w.accounts,
        &mut w.conversations,
        &w.vault,
        names(&["alice", "bob"]),
    )
    .expect("conversation");
    assert_eq!(unwrap_key(&c, "carol", &w.vault), Err(Error::NotAParticipant));
    // Not a participant, logged in or not.
    assert_eq!(unwrap_key(&c, "dave", &w.vault), Err(Error::NotAParticipant));
}

#[test]
fn every_participant_recovers_the_same_key() {
    let mut w = world(&[("alice", "pw1"), ("bob", "pw2")]);
    let key = [0x42u8; 32];
    let c = open_conversation(
        &w.accounts,
        &mut w.conversations,
        &w.vault,
        names(&["alice", "bob"]),
        "c1".to_string(),
        &key,
    )
    .expect("conversation");
    assert_eq!(c.id, "c1");
    assert_eq!(unwrap_key(&c, "alice", &w.vault), Ok(key.to_vec()));
    assert_eq!(unwrap_key(&c, "bob", &w.vault), Ok(key.to_vec()));
}

#[test]
fn drawn_conversation_key_has_the_length_of_the_cipher() {
    let mut w = world(&[("alice", "pw1")]);
    let c = create_conversation(&w.accounts, &mut w.conversations, &w.vault, names(&["alice"]))
        .expect("conversation");
    assert_eq!(unwrap_key(&c, "alice", &w.vault).map(|k| k.len()), Ok(32));
}

#[test]
fn unwrap_needs_a_session() {
    let mut w = world(&[("alice", "pw1"), ("bob", "pw2")]);
    let c = create_conversation(
        &w.accounts,
        &mut w.conversations,
        &w.vault,
        names(&["alice", "bob"]),
    )
    .expect("conversation");
    w.vault.clear("bob");
    assert_eq!(unwrap_key(&c, "bob", &w.vault), Err(Error::NoActiveSession));
    assert!(unwrap_key(&c, "alice", &w.vault).is_ok());
}

#[test]
fn unwrap_with_a_wrong_or_broken_key_fails() {
    let mut w = world(&[("alice", "pw1"), ("bob", "pw2")]);
    let mut c = create_conversation(
        &w.accounts,
        &mut w.conversations,
        &w.vault,
        names(&["alice", "bob"]),
    )
    .expect("conversation");
    // No private key at all in the vault.
    w.vault.install("bob", b"not a key".to_vec());
    assert_eq!(unwrap_key(&c, "bob", &w.vault), Err(Error::KeyUnwrapFailed));
    // A wrapped key of the wrong size for the modulus.
    c.keys[0].key = vec![1, 2, 3];
    assert_eq!(unwrap_key(&c, "alice", &w.vault), Err(Error::KeyUnwrapFailed));
    assert_eq!(c.keys[1].decrypt(b"junk"), Err(Error::KeyUnwrapFailed));
}

#[test]
fn conversation_needs_known_participants() {
    let mut w = world(&[("alice", "pw1")]);
    let out =
        create_conversation(&w.accounts, &mut w.conversations, &w.vault, names(&["alice", "bob"]));
    assert_eq!(out, Err(Error::UnknownParticipant));
    let out = create_conversation(&w.accounts, &mut w.conversations, &w.vault, Vec::new());
    assert_eq!(out, Err(Error::UnknownParticipant));
    assert_eq!(w.conversations.len(), 0);
    assert_eq!(
        UserKey::encrypt(&w.accounts, &[0u8; 32], &"bob".to_string()),
        Err(Error::UnknownParticipant)
    );
}

#[test]
fn account_without_a_readable_public_key_is_no_participant() {
    let mut w = world(&[("alice", "pw1")]);
    let broken = Account {
        username: "bob".to_string(),
        public_key: b"no pem".to_vec(),
        ..Account::default()
    };
    Account::create_account(&mut w.accounts, &broken).expect("stored");
    assert!(knows_key_of(&w.accounts, &"alice".to_string()));
    assert!(!knows_key_of(&w.accounts, &"bob".to_string()));
    assert!(!knows_key_of(&w.accounts, &"carol".to_string()));
    let out =
        create_conversation(&w.accounts, &mut w.conversations, &w.vault, names(&["alice", "bob"]));
    assert_eq!(out, Err(Error::UnknownParticipant));
    assert_eq!(
        UserKey::encrypt(&w.accounts, &[0u8; 32], &"bob".to_string()),
        Err(Error::UnknownParticipant)
    );
    assert_eq!(w.conversations.len(), 0);
}

#[test]
fn key_too_long_for_the_modulus_fails_to_wrap() {
    let w = world(&[("alice", "pw1")]);
    // PKCS#1 padding leaves 245 bytes of a 2048-bit modulus.
    assert!(UserKey::encrypt(&w.accounts, &[1u8; 245], &"alice".to_string()).is_ok());
    assert_eq!(
        UserKey::encrypt(&w.accounts, &[1u8; 246], &"alice".to_string()),
        Err(Error::EncryptFailure)
    );
}

#[test]
fn open_conversation_checks_key_and_identifier() {
    let mut w = world(&[("alice", "pw1")]);
    let users = names(&["alice"]);
    let out = open_conversation(
        &w.accounts,
        &mut w.conversations,
        &w.vault,
        users.clone(),
        "c1".to_string(),
        &[1u8; 16],
    );
    assert_eq!(out, Err(Error::KeyGenFailure));
    open_conversation(
        &w.accounts,
        &mut w.conversations,
        &w.vault,
        users.clone(),
        "c1".to_string(),
        &[1u8; 32],
    )
    .expect("conversation");
    let out = open_conversation(
        &w.accounts,
        &mut w.conversations,
        &w.vault,
        users.clone(),
        "c1".to_string(),
        &[2u8; 32],
    );
    assert_eq!(out, Err(Error::StoreConflict));
    assert_eq!(w.conversations.len(), 1);
    // The participants are looked at first.
    let out = open_conversation(
        &w.accounts,
        &mut w.conversations,
        &w.vault,
        names(&["zed"]),
        "c1".to_string(),
        &[2u8; 16],
    );
    assert_eq!(out, Err(Error::UnknownParticipant));
}

#[test]
fn participants_are_a_set_in_order_of_first_mention() {
    let mut w = world(&[("alice", "pw1"), ("bob", "pw2")]);
    let c = create_conversation(
        &w.accounts,
        &mut w.conversations,
        &w.vault,
        names(&["bob", "alice", "bob", "alice", "alice"]),
    )
    .expect("conversation");
    assert_eq!(c.users, names(&["bob", "alice"]));
    assert_eq!(c.keys.len(), 2);
    assert_eq!(c.keys[0].owner, "bob");
    assert_eq!(c.keys[1].owner, "alice");
    assert_eq!(deduplicate(&names(&["a", "b", "a", "c", "b"])), names(&["a", "b", "c"]));
    assert_eq!(deduplicate(&Vec::new()), Vec::<String>::new());
}

#[test]
fn identifiers_are_eight_hex_digits() {
    for _ in 0..20 {
        let id = rand_hex().expect("identifier");
        assert_eq!(id.len(), 8);
        assert!(id.chars().all(|c| c.is_ascii_digit() || ('a'..='f').contains(&c)));
    }
    assert_ne!(rand_hex(), rand_hex());
    assert!(rand_hex().is_some());
}

#[test]
fn message_travels_between_two_key_pairs() {
    let mut w = world(&[("alice", "pw1"), ("bob", "pw2")]);
    let c = create_conversation(
        &w.accounts,
        &mut w.conversations,
        &w.vault,
        names(&["alice", "bob"]),
    )
    .expect("conversation");
    let sent = RawMessage {
        sender: "alice".to_string(),
        message: b"hello".to_vec(),
        time: "2024-01-02 03:04:05 +00:00".to_string(),
    };
    assert_eq!(upload_message(&mut w.conversations, &w.vault, &sent, &c.id), Ok(()));
    let read = receive_messages(&w.conversations, &w.vault, "bob", &c.id).expect("read");
    assert_eq!(read, vec![sent.clone()]);
    // The sender reads her own message too.
    let own = receive_messages(&w.conversations, &w.vault, "alice", &c.id).expect("read");
    assert_eq!(own, vec![sent]);
}

#[test]
fn scenario_alice_writes_to_bob() {
    let mut accounts = AccountStore::new();
    let mut vault = KeyVault::new();
    let mut conversations = ConversationStore::new();
    register(&mut accounts, "alice", "pw1").expect("registration");
    register(&mut accounts, "bob", "pw2").expect("registration");
    login(&accounts, &mut vault, "alice", "pw1").expect("login");
    login(&accounts, &mut vault, "bob", "pw2").expect("login");
    let key = rand_hex().expect("identifier").repeat(4).into_bytes();
    let c = open_conversation(
        &accounts,
        &mut conversations,
        &vault,
        names(&["alice", "bob"]),
        "c1".to_string(),
        &key,
    )
    .expect("conversation");
    assert_eq!(c.id, "c1");
    let sent = send_message(&mut conversations, &vault, "c1", "alice", b"hi bob", "10:00");
    assert_eq!(sent, Ok(()));
    let read = receive_messages(&conversations, &vault, "bob", "c1").expect("read");
    assert_eq!(read.len(), 1);
    assert_eq!(read[0].sender, "alice");
    assert_eq!(read[0].message, b"hi bob".to_vec());
    assert_eq!(read[0].time, "10:00");
}

#[test]
fn first_message_arrives_with_sender_content_and_time() {
    let mut w = world(&[("alice", "pw1"), ("bob", "pw2")]);
    let c = create_conversation(
        &w.accounts,
        &mut w.conversations,
        &w.vault,
        names(&["alice", "bob"]),
    )
    .expect("conversation");
    assert!(c.messages.is_empty());
    let time = "2024-01-02 03:04:05.678 +01:00";
    let sent = send_message(&mut w.conversations, &w.vault, &c.id, "alice", b"hello", time);
    assert_eq!(sent, Ok(()));
    let read = receive_messages(&w.conversations, &w.vault, "bob", &c.id);
    assert_eq!(
        read,
        Ok(vec![RawMessage {
            sender: "alice".to_string(),
            message: b"hello".to_vec(),
            time: time.to_string(),
        }])
    );
}

#[test]
fn messages_only_grow_and_keep_their_order() {
    let mut w = world(&[("alice", "pw1"), ("bob", "pw2")]);
    let c = create_conversation(
        &w.accounts,
        &mut w.conversations,
        &w.vault,
        names(&["alice", "bob"]),
    )
    .expect("conversation");
    let texts: [(&str, &[u8]); 3] = [("alice", b"one"), ("bob", b"two"), ("alice", b"three")];
    let mut stored_so_far: Vec<EncryptedMessage> = Vec::new();
    for (sender, text) in texts {
        send_message(&mut w.conversations, &w.vault, &c.id, sender, text, "10:00")
            .expect("send");
        let now = Conversation::get(&w.conversations, &c.id).expect("stored");
        assert_eq!(now.messages.len(), stored_so_far.len() + 1);
        assert_eq!(now.messages[..stored_so_far.len()], stored_so_far[..]);
        assert_eq!(now.users, c.users);
        assert_eq!(now.keys, c.keys);
        stored_so_far = now.messages;
    }
    let read = receive_messages(&w.conversations, &w.vault, "bob", &c.id).expect("read");
    let got: Vec<(String, Vec<u8>)> =
        read.into_iter().map(|m| (m.sender, m.message)).collect();
    let want: Vec<(String, Vec<u8>)> =
        texts.iter().map(|(s, t)| (s.to_string(), t.to_vec())).collect();
    assert_eq!(got, want);
}

#[test]
fn sending_fails_without_changing_the_store() {
    let mut w = world(&[("alice", "pw1"), ("bob", "pw2"), ("carol", "pw3")]);
    let c = create_conversation(
        &w.accounts,
        &mut w.conversations,
        &w.vault,
        names(&["alice", "bob"]),
    )
    .expect("conversation");
    assert_eq!(
        send_message(&mut w.conversations, &w.vault, "nowhere", "alice", b"x", "10:00"),
        Err(Error::UnknownConversation)
    );
    assert_eq!(
        send_message(&mut w.conversations, &w.vault, &c.id, "carol", b"x", "10:00"),
        Err(Error::NotAParticipant)
    );
    w.vault.clear("alice");
    assert_eq!(
        send_message(&mut w.conversations, &w.vault, &c.id, "alice", b"x", "10:00"),
        Err(Error::NoActiveSession)
    );
    w.vault.install("alice", b"junk".to_vec());
    assert_eq!(
        send_message(&mut w.conversations, &w.vault, &c.id, "alice", b"x", "10:00"),
        Err(Error::KeyUnwrapFailed)
    );
    assert_eq!(Conversation::get(&w.conversations, &c.id), Some(c));
}

#[test]
fn sending_under_a_key_of_the_wrong_length_is_an_encrypt_failure() {
    let mut w = world(&[("alice", "pw1")]);
    // Wrap a key that the cipher cannot use, by hand.
    let wrapped = UserKey::encrypt(&w.accounts, &[1u8; 5], &"alice".to_string()).expect("wrap");
    let c = Conversation {
        id: "odd".to_string(),
        users: names(&["alice"]),
        keys: vec![wrapped],
        messages: Vec::new(),
    };
    assert!(w.conversations.insert(c.clone()));
    assert_eq!(
        send_message(&mut w.conversations, &w.vault, "odd", "alice", b"x", "10:00"),
        Err(Error::EncryptFailure)
    );
    assert_eq!(Conversation::get(&w.conversations, "odd"), Some(c));
}

#[test]
fn reading_fails_as_a_whole() {
    let mut w = world(&[("alice", "pw1"), ("bob", "pw2"), ("carol", "pw3")]);
    let c = create_conversation(
        &w.accounts,
        &mut w.conversations,
        &w.vault,
        names(&["alice", "bob"]),
    )
    .expect("conversation");
    send_message(&mut w.conversations, &w.vault, &c.id, "alice", b"one", "10:00")
        .expect("send");
    assert_eq!(
        receive_messages(&w.conversations, &w.vault, "bob", "nowhere"),
        Err(Error::UnknownConversation)
    );
    assert_eq!(
        receive_messages(&w.conversations, &w.vault, "carol", &c.id),
        Err(Error::NotAParticipant)
    );
    // One stored message that does not open spoils the read.
    assert!(w.conversations.append_message(&c.id, EncryptedMessage { data: vec![0u8; 48] }));
    assert_eq!(
        receive_messages(&w.conversations, &w.vault, "bob", &c.id),
        Err(Error::DecryptFailure)
    );
    assert!(!w.conversations.append_message("nowhere", EncryptedMessage { data: Vec::new() }));
}

#[test]
fn empty_conversation_reads_as_empty() {
    let mut w = world(&[("alice", "pw1")]);
    let c = create_conversation(&w.accounts, &mut w.conversations, &w.vault, names(&["alice"]))
        .expect("conversation");
    assert_eq!(receive_messages(&w.conversations, &w.vault, "alice", &c.id), Ok(Vec::new()));
}

#[test]
fn sending_again_stores_again() {
    let mut w = world(&[("alice", "pw1"), ("bob", "pw2")]);
    let c = create_conversation(
        &w.accounts,
        &mut w.conversations,
        &w.vault,
        names(&["alice", "bob"]),
    )
    .expect("conversation");
    let message = RawMessage {
        sender: "alice".to_string(),
        message: b"same".to_vec(),
        time: "t".to_string(),
    };
    upload_message(&mut w.conversations, &w.vault, &message, &c.id).expect("send");
    let before = receive_messages(&w.conversations, &w.vault, "bob", &c.id).expect("read");
    upload_message(&mut w.conversations, &w.vault, &message, &c.id).expect("send");
    // What was read is not extended; a new read sees both.
    assert_eq!(before, vec![message.clone()]);
    let after = receive_messages(&w.conversations, &w.vault, "bob", &c.id).expect("read");
    assert_eq!(after, vec![message.clone(), message]);
    let stored = Conversation::get(&w.conversations, &c.id).expect("stored");
    assert_ne!(stored.messages[0], stored.messages[1]);
}

#[test]
fn creation_confirms_the_wrapped_keys_of_those_logged_in() {
    let mut w = world(&[("alice", "pw1"), ("bob", "pw2")]);
    // Bob's session holds a key that is not the one of his account.
    let alice_key = w.vault.get("alice").expect("key");
    w.vault.install("bob", alice_key);
    let out =
        create_conversation(&w.accounts, &mut w.conversations, &w.vault, names(&["alice", "bob"]));
    assert_eq!(out, Err(Error::EncryptFailure));
    assert_eq!(w.conversations.len(), 0);
    // Without a session there is nothing to confirm.
    w.vault.clear("bob");
    let c = create_conversation(
        &w.accounts,
        &mut w.conversations,
        &w.vault,
        names(&["alice", "bob"]),
    )
    .expect("conversation");
    assert_eq!(c.keys.len(), 2);
    assert!(unwrap_key(&c, "alice", &w.vault).is_ok());
}

#[test]
fn identifier_is_lowercase_hex() {
    assert_eq!(identifier_of(&[0x00, 0x0f, 0xa0, 0xff]), "000fa0ff");
    assert_eq!(identifier_of(&[0x12, 0xab]), "12ab");
    assert_eq!(identifier_of(&[]), "");
}

#[test]
fn assembly_takes_the_wrapped_keys_as_given() {
    let mut w = world(&[("alice", "pw1"), ("bob", "pw2")]);
    w.vault.clear("alice");
    w.vault.clear("bob");
    let key = [3u8; 32];
    // Nobody is logged in, so nothing can be confirmed and anything is kept.
    let c = assemble_conversation(
        &w.accounts,
        &mut w.conversations,
        &w.vault,
        names(&["alice", "bob", "alice"]),
        "c1".to_string(),
        &key,
        vec![vec![1, 2], vec![3]],
    )
    .expect("conversation");
    assert_eq!(
        c,
        Conversation {
            id: "c1".to_string(),
            users: names(&["alice", "bob"]),
            keys: vec![
                UserKey { owner: "alice".to_string(), key: vec![1, 2] },
                UserKey { owner: "bob".to_string(), key: vec![3] },
            ],
            messages: Vec::new(),
        }
    );
    assert_eq!(Conversation::get(&w.conversations, "c1"), Some(c));
}

#[test]
fn assembly_fails_in_a_fixed_order() {
    let mut w = world(&[("alice", "pw1")]);
    let good = UserKey::encrypt(&w.accounts, &[3u8; 32], &"alice".to_string()).expect("wrap").key;
    let try_with = |w: &mut World, users: Vec<String>, id: &str, key: &[u8], keys: Vec<Vec<u8>>| {
        assemble_conversation(
            &w.accounts,
            &mut w.conversations,
            &w.vault,
            users,
            id.to_string(),
            key,
            keys,
        )
    };
    let alice = names(&["alice"]);
    assert!(try_with(&mut w, alice.clone(), "c1", &[3u8; 32], vec![good.clone()]).is_ok());
    // Wrapped for another key than the one named.
    assert_eq!(
        try_with(&mut w, alice.clone(), "c2", &[4u8; 32], vec![good.clone()]),
        Err(Error::EncryptFailure)
    );
    // Too few and too many wrapped keys.
    assert_eq!(
        try_with(&mut w, alice.clone(), "c2", &[3u8; 32], Vec::new()),
        Err(Error::EncryptFailure)
    );
    assert_eq!(
        try_with(&mut w, alice.clone(), "c2", &[3u8; 32], vec![good.clone(), good.clone()]),
        Err(Error::EncryptFailure)
    );
    // An identifier that is taken comes before the wrapped keys.
    assert_eq!(
        try_with(&mut w, alice.clone(), "c1", &[3u8; 32], Vec::new()),
        Err(Error::StoreConflict)
    );
    // The length of the key comes before the identifier.
    assert_eq!(
        try_with(&mut w, alice.clone(), "c1", &[3u8; 31], Vec::new()),
        Err(Error::KeyGenFailure)
    );
    // The participants come first.
    assert_eq!(
        try_with(&mut w, names(&["zed"]), "c1", &[3u8; 31], Vec::new()),
        Err(Error::UnknownParticipant)
    );
    assert_eq!(w.conversations.len(), 1);
}

#[test]
fn upload_with_a_given_vector_stores_what_the_cipher_makes() {
    let mut w = world(&[("alice", "pw1"), ("bob", "pw2")]);
    let key = [5u8; 32];
    let iv = [6u8; 16];
    open_conversation(
        &w.accounts,
        &mut w.conversations,
        &w.vault,
        names(&["alice", "bob"]),
        "c1".to_string(),
        &key,
    )
    .expect("conversation");
    let message = RawMessage {
        sender: "alice".to_string(),
        message: b"hello".to_vec(),
        time: "t".to_string(),
    };
    assert_eq!(upload_message_with_iv(&mut w.conversations, &w.vault, &message, "c1", &iv), Ok(()));
    let stored = Conversation::get(&w.conversations, "c1").expect("stored");
    assert_eq!(stored.messages, vec![encrypt_with_iv(&message, &key, &iv).unwrap()]);
    assert_eq!(
        receive_messages(&w.conversations, &w.vault, "bob", "c1"),
        Ok(vec![message.clone()])
    );
    // The failures, in their order.
    assert_eq!(
        upload_message_with_iv(&mut w.conversations, &w.vault, &message, "c2", &[0u8; 3]),
        Err(Error::UnknownConversation)
    );
    let stranger = RawMessage { sender: "carol".to_string(), ..message.clone() };
    assert_eq!(
        upload_message_with_iv(&mut w.conversations, &w.vault, &stranger, "c1", &[0u8; 3]),
        Err(Error::NotAParticipant)
    );
    assert_eq!(
        upload_message_with_iv(&mut w.conversations, &w.vault, &message, "c1", &[0u8; 3]),
        Err(Error::EncryptFailure)
    );
    assert_eq!(Conversation::get(&w.conversations, "c1"), Some(stored));
}
