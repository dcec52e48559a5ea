//! What each screen of the front end shows, line by line, before it is laid
//! out and printed.

use crate::bytes::copy_bytes;
use crate::conversation::{Conversation, ConversationView};
use crate::message::{RawMessage, RawMessageView};
use crate::primitives::string_from_utf8;
use crate::text::{chars_of, holds_name, text_of, texts, trim_bounds, trimmed};
use vstd::prelude::*;
use vstd::string::StringExecFns;
use vstd::utf8::{decode_utf8, valid_utf8};

verus! {

/// `names` in a row, with `separator` between each two.
pub open spec fn joined(names: Seq<Seq<char>>, separator: Seq<char>) -> Seq<char>
    decreases names.len(),
{
    if names.len() == 0 {
        Seq::empty()
    } else if names.len() == 1 {
        names[0]
    } else {
        joined(names.drop_last(), separator) + separator + names.last()
    }
}

/// The lines of the welcome screen.
pub open spec fn welcome_text() -> Seq<Seq<char>> {
    seq![
        "Welcome to CRIM."@,
        ""@,
        ""@,
        ""@,
        "register : register an account"@,
        "login : login to an existing account"@,
        "exit : leave CRIM"@,
    ]
}

/// The lines of the home page of `username`.
pub open spec fn home_text(username: Seq<char>) -> Seq<Seq<char>> {
    seq![
        "Welcome, "@ + username + "."@,
        ""@,
        ""@,
        ""@,
        "Please select an option."@,
        ""@,
        "msg : opens the message panel"@,
        "manage : manage your friends"@,
        "logout : log out of your account."@,
    ]
}

/// The lines of the friends page: the friends between heading and menu.
pub open spec fn friends_text(friends: Seq<Seq<char>>) -> Seq<Seq<char>> {
    seq!["Friends Management"@, ""@, ""@] + friends + seq![
        ""@,
        "add <friend> : adds friend by username"@,
        "rm <friend> : removes friend by username"@,
        "back : returns to home page"@,
    ]
}

/// The lines of the message panel.
pub open spec fn message_panel_text() -> Seq<Seq<char>> {
    seq![
        "Message Panel"@,
        ""@,
        ""@,
        ""@,
        "new <friend> : start a new single conversation with a friend."@,
        "new --multi <friend, friend> : start a new multi-person conversation."@,
        "open : view open conversations you are a participant in."@,
        "back : return to home page."@,
    ]
}

/// The line that lists conversation `c`: its identifier and its participants.
pub open spec fn conversation_line(c: ConversationView) -> Seq<char> {
    c.id + " : "@ + joined(c.users, ", "@)
}

/// The lines that list those of `conversations` that `username` takes part
/// in, in their order.
pub open spec fn listed(conversations: Seq<ConversationView>, username: Seq<char>) -> Seq<
    Seq<char>,
>
    decreases conversations.len(),
{
    if conversations.len() == 0 {
        Seq::empty()
    } else if conversations.last().users.contains(username) {
        listed(conversations.drop_last(), username).push(conversation_line(conversations.last()))
    } else {
        listed(conversations.drop_last(), username)
    }
}

/// The lines of the conversation list of `username`.
pub open spec fn conversation_list_text(
    conversations: Seq<ConversationView>,
    username: Seq<char>,
) -> Seq<Seq<char>> {
    seq![
        "Conversations"@,
        ""@,
        "open <id> : open a conversation"@,
        "back : return to message panel"@,
        ""@,
    ] + listed(conversations, username)
}

/// The line that shows message `m`: sender and content, without the white
/// space around them. Content that is no UTF-8 shows as nothing.
pub open spec fn message_line(m: RawMessageView) -> Seq<char> {
    trimmed(
        m.sender + ": "@ + if valid_utf8(m.message) {
            decode_utf8(m.message)
        } else {
            Seq::empty()
        },
    )
}

/// The lines of an open conversation: its messages between heading and menu.
pub open spec fn messenger_text(messages: Seq<RawMessageView>) -> Seq<Seq<char>> {
    seq!["Messenger"@, ""@, ""@] + Seq::new(messages.len(), |i: int| message_line(messages[i]))
        + seq![""@, "send <message> : send a message"@, "back : return to conversation list"@]
}

/// What a list of conversations holds.
pub open spec fn conversation_views(conversations: Seq<Conversation>) -> Seq<ConversationView> {
    Seq::new(conversations.len(), |i: int| conversations[i]@)
}

/// `names` in a row, with `separator` between each two.
pub fn join(names: &Vec<String>, separator: &str) -> (out: String)
    ensures
        out@ == joined(texts(names@), separator@),
{
    let ghost all = texts(names@);
    let mut out = String::new();
    let mut i: usize = 0;
    assert(all.subrange(0, 0) =~= Seq::<Seq<char>>::empty());
    while i < names.len()
        invariant
            i <= names@.len(),
            all == texts(names@),
            out@ == joined(all.subrange(0, i as int), separator@),
        decreases names@.len() - i,
    {
        let ghost upto = all.subrange(0, i + 1);
        assert(upto.drop_last() =~= all.subrange(0, i as int));
        assert(upto.last() == names@[i as int]@);
        if i > 0 {
            out.append(separator);
        } else {
            assert(out@ + names@[i as int]@ =~= names@[i as int]@);
            assert(upto[0] == names@[i as int]@);
        }
        out.append(names[i].as_str());
        i += 1;
    }
    assert(all.subrange(0, names@.len() as int) =~= all);
    out
}

/// The lines of the welcome screen.
pub fn welcome_lines() -> (out: Vec<String>)
    ensures
        texts(out@) == welcome_text(),
{
    let mut out: Vec<String> = Vec::new();
    out.push("Welcome to CRIM.".to_owned());
    out.push("".to_owned());
    out.push("".to_owned());
    out.push("".to_owned());
    out.push("register : register an account".to_owned());
    out.push("login : login to an existing account".to_owned());
    out.push("exit : leave CRIM".to_owned());
    assert(texts(out@) =~= welcome_text());
    out
}

/// The lines of the home page of `username`.
pub fn home_lines(username: &str) -> (out: Vec<String>)
    ensures
        texts(out@) == home_text(username@),
{
    let mut welcome = "Welcome, ".to_owned();
    welcome.append(username);
    welcome.append(".");
    let mut out: Vec<String> = Vec::new();
    out.push(welcome);
    out.push("".to_owned());
    out.push("".to_owned());
    out.push("".to_owned());
    out.push("Please select an option.".to_owned());
    out.push("".to_owned());
    out.push("msg : opens the message panel".to_owned());
    out.push("manage : manage your friends".to_owned());
    out.push("logout : log out of your account.".to_owned());
    assert(texts(out@) =~= home_text(username@));
    out
}

/// The lines of the friends page of a user with the given friends.
pub fn friends_lines(friends: &Vec<String>) -> (out: Vec<String>)
    ensures
        texts(out@) == friends_text(texts(friends@)),
{
    let mut out: Vec<String> = Vec::new();
    out.push("Friends Management".to_owned());
    out.push("".to_owned());
    out.push("".to_owned());
    let mut i: usize = 0;
    while i < friends.len()
        invariant
            i <= friends@.len(),
            out@.len() == 3 + i,
            out@[0]@ == "Friends Management"@,
            out@[1]@ == ""@,
            out@[2]@ == ""@,
            forall|k: int| 0 <= k < i ==> (#[trigger] out@[3 + k])@ == friends@[k]@,
        decreases friends@.len() - i,
    {
        out.push(friends[i].clone());
        i += 1;
    }
    out.push("".to_owned());
    out.push("add <friend> : adds friend by username".to_owned());
    out.push("rm <friend> : removes friend by username".to_owned());
    out.push("back : returns to home page".to_owned());
    proof {
        let shown = texts(out@);
        let wanted = friends_text(texts(friends@));
        assert(shown.len() == wanted.len());
        assert forall|k: int| 0 <= k < shown.len() implies shown[k] == wanted[k] by {
            if 3 <= k < 3 + friends@.len() {
                assert(out@[3 + (k - 3)]@ == friends@[k - 3]@);
            }
        }
        assert(shown =~= wanted);
    }
    out
}

/// The lines of the message panel.
pub fn message_panel_lines() -> (out: Vec<String>)
    ensures
        texts(out@) == message_panel_text(),
{
    let mut out: Vec<String> = Vec::new();
    out.push("Message Panel".to_owned());
    out.push("".to_owned());
    out.push("".to_owned());
    out.push("".to_owned());
    out.push("new <friend> : start a new single conversation with a friend.".to_owned());
    out.push("new --multi <friend, friend> : start a new multi-person conversation.".to_owned());
    out.push("open : view open conversations you are a participant in.".to_owned());
    out.push("back : return to home page.".to_owned());
    assert(texts(out@) =~= message_panel_text());
    out
}

/// The lines of the conversation list of `username`: of `conversations`,
/// those that the user takes part in, in their order.
pub fn conversation_list_lines(conversations: &Vec<Conversation>, username: &str) -> (out: Vec<
    String,
>)
    ensures
        texts(out@) == conversation_list_text(conversation_views(conversations@), username@),
{
    let name = username.to_owned();
    let ghost all = conversation_views(conversations@);
    let mut out: Vec<String> = Vec::new();
    out.push("Conversations".to_owned());
    out.push("".to_owned());
    out.push("open <id> : open a conversation".to_owned());
    out.push("back : return to message panel".to_owned());
    out.push("".to_owned());
    let ghost head = texts(out@);
    assert(head =~= seq![
        "Conversations"@,
        ""@,
        "open <id> : open a conversation"@,
        "back : return to message panel"@,
        ""@,
    ]);
    let mut i: usize = 0;
    assert(all.subrange(0, 0) =~= Seq::<ConversationView>::empty());
    assert(texts(out@) =~= head + listed(all.subrange(0, 0), username@));
    while i < conversations.len()
        invariant
            i <= conversations@.len(),
            name@ == username@,
            all == conversation_views(conversations@),
            texts(out@) == head + listed(all.subrange(0, i as int), username@),
        decreases conversations@.len() - i,
    {
        let ghost upto = all.subrange(0, i + 1);
        assert(upto.drop_last() =~= all.subrange(0, i as int));
        assert(upto.last() == conversations@[i as int]@);
        let conversation = &conversations[i];
        if holds_name(&conversation.users, &name) {
            let mut line = conversation.id.clone();
            line.append(" : ");
            let users = join(&conversation.users, ", ");
            line.append(users.as_str());
            let ghost before = texts(out@);
            out.push(line);
            assert(texts(out@) =~= before.push(conversation_line(conversations@[i as int]@)));
            assert(texts(out@) =~= head + listed(upto, username@));
        }
        i += 1;
    }
    assert(all.subrange(0, conversations@.len() as int) =~= all);
    out
}

/// The line that shows `message`.
pub fn message_line_of(message: &RawMessage) -> (out: String)
    ensures
        out@ == message_line(message@),
{
    let mut line = message.sender.clone();
    line.append(": ");
    match string_from_utf8(copy_bytes(message.message.as_slice())) {
        Some(content) => {
            proof {
                vstd::utf8::encode_utf8_decode_utf8(content@);
            }
            line.append(content.as_str());
        },
        None => {
            assert(line@ + Seq::<char>::empty() =~= line@);
        },
    }
    let chars = chars_of(line.as_str());
    assert(chars@.subrange(0, chars@.len() as int) =~= chars@);
    let (start, end) = trim_bounds(&chars, 0);
    text_of(&chars, start, end)
}

/// The lines of an open conversation that holds `messages`.
pub fn messenger_lines(messages: &Vec<RawMessage>) -> (out: Vec<String>)
    ensures
        texts(out@) == messenger_text(crate::relay::raw_views(messages@)),
{
    let mut out: Vec<String> = Vec::new();
    out.push("Messenger".to_owned());
    out.push("".to_owned());
    out.push("".to_owned());
    let mut i: usize = 0;
    while i < messages.len()
        invariant
            i <= messages@.len(),
            out@.len() == 3 + i,
            out@[0]@ == "Messenger"@,
            out@[1]@ == ""@,
            out@[2]@ == ""@,
            forall|k: int| 0 <= k < i ==> (#[trigger] out@[3 + k])@ == message_line(messages@[k]@),
        decreases messages@.len() - i,
    {
        out.push(message_line_of(&messages[i]));
        i += 1;
    }
    out.push("".to_owned());
    out.push("send <message> : send a message".to_owned());
    out.push("back : return to conversation list".to_owned());
    proof {
        let shown = texts(out@);
        let wanted = messenger_text(crate::relay::raw_views(messages@));
        assert(shown.len() == wanted.len());
        assert forall|k: int| 0 <= k < shown.len() implies shown[k] == wanted[k] by {
            if 3 <= k < 3 + messages@.len() {
                assert(out@[3 + (k - 3)]@ == message_line(messages@[k - 3]@));
            }
        }
        assert(shown =~= wanted);
    }
    out
}

} // verus!
