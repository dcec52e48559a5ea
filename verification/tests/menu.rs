use crim::account::{Account, AccountStore};
use crim::conversation::{Conversation, ConversationStore};
use crim::error::{Error, ErrorKind};
use crim::input::{match_option, read_command, words};
use crim::menu::{init, step, Action, Command, Screen};

fn user() -> Account {
    Account {
        username: "alice".to_string(),
        friends: vec!["bob".to_string()],
        ..Account::default()
    }
}

fn conversations() -> ConversationStore {
    let mut store = ConversationStore::new();
    assert!(store.insert(Conversation {
        id: "c1".to_string(),
        users: vec!["alice".to_string(), "bob".to_string()],
        keys: Vec::new(),
        messages: Vec::new(),
    }));
    store
}

fn go(screen: Screen, command: Command, argument: &str) -> (Screen, Action) {
    step(&screen, command, argument, &user(), &conversations())
}

#[test]
fn init_opens_the_home_page_of_a_stored_account() {
    let mut store = AccountStore::new();
    Account::create_account(&mut store, &user()).expect("stored");
    assert_eq!(init(&store, &user()), Ok(Screen::Home));
    let stranger = Account { username: "zed".to_string(), ..Account::default() };
    assert_eq!(init(&store, &stranger), Err(Error::NoActiveSession));
}

#[test]
fn welcome_screen_moves() {
    assert_eq!(go(Screen::Welcome, Command::Register, ""), (Screen::Welcome, Action::Register));
    assert_eq!(go(Screen::Welcome, Command::Login, ""), (Screen::Welcome, Action::Login));
    assert_eq!(go(Screen::Welcome, Command::Exit, ""), (Screen::Welcome, Action::Exit));
    assert_eq!(go(Screen::Welcome, Command::Msg, ""), (Screen::Welcome, Action::Redraw));
}

#[test]
fn home_screen_moves() {
    assert_eq!(go(Screen::Home, Command::Msg, ""), (Screen::MessagePanel, Action::Redraw));
    assert_eq!(go(Screen::Home, Command::Manage, ""), (Screen::Friends, Action::Redraw));
    assert_eq!(go(Screen::Home, Command::Logout, ""), (Screen::Welcome, Action::Logout));
    assert_eq!(go(Screen::Home, Command::Send, "x"), (Screen::Home, Action::Redraw));
}

#[test]
fn friends_screen_moves() {
    assert_eq!(
        go(Screen::Friends, Command::Add, "carol"),
        (Screen::Friends, Action::AddFriend("carol".to_string()))
    );
    assert_eq!(
        go(Screen::Friends, Command::Rm, "bob"),
        (Screen::Friends, Action::RemoveFriend("bob".to_string()))
    );
    assert_eq!(go(Screen::Friends, Command::Back, ""), (Screen::Home, Action::Redraw));
}

#[test]
fn message_panel_moves() {
    assert_eq!(
        go(Screen::MessagePanel, Command::New, "bob"),
        (Screen::ConversationList, Action::StartConversation("bob".to_string()))
    );
    assert_eq!(
        go(Screen::MessagePanel, Command::New, "carol"),
        (Screen::MessagePanel, Action::NotAFriend("carol".to_string()))
    );
    assert_eq!(
        go(Screen::MessagePanel, Command::NewMulti, "bob, carol"),
        (Screen::MessagePanel, Action::Unavailable)
    );
    assert_eq!(
        go(Screen::MessagePanel, Command::Open, ""),
        (Screen::ConversationList, Action::Redraw)
    );
    assert_eq!(go(Screen::MessagePanel, Command::Back, ""), (Screen::Home, Action::Redraw));
}

#[test]
fn conversation_screens_move() {
    assert_eq!(
        go(Screen::ConversationList, Command::Open, "c1"),
        (Screen::Messenger("c1".to_string()), Action::Redraw)
    );
    assert_eq!(
        go(Screen::ConversationList, Command::Open, "c2"),
        (Screen::ConversationList, Action::NoSuchConversation("c2".to_string()))
    );
    assert_eq!(
        go(Screen::ConversationList, Command::Back, ""),
        (Screen::MessagePanel, Action::Redraw)
    );
    let open = Screen::Messenger("c1".to_string());
    assert_eq!(
        go(open.clone(), Command::Send, "hi bob"),
        (open.clone(), Action::Send("hi bob".to_string()))
    );
    assert_eq!(go(open.clone(), Command::Back, ""), (Screen::ConversationList, Action::Redraw));
    assert_eq!(go(open.clone(), Command::Logout, ""), (open.clone(), Action::Redraw));
    assert_eq!(open.duplicate(), open);
}

#[test]
fn every_screen_lists_its_commands() {
    assert_eq!(
        words(&Screen::Welcome.commands()),
        vec!["register".to_string(), "login".to_string(), "exit".to_string()]
    );
    assert_eq!(
        words(&Screen::Home.commands()),
        vec!["msg".to_string(), "manage".to_string(), "logout".to_string()]
    );
    assert_eq!(
        words(&Screen::Friends.commands()),
        vec!["add".to_string(), "rm".to_string(), "back".to_string()]
    );
    assert_eq!(
        words(&Screen::MessagePanel.commands()),
        vec!["new".to_string(), "new --multi".to_string(), "open".to_string(), "back".to_string()]
    );
    assert_eq!(
        words(&Screen::ConversationList.commands()),
        vec!["open".to_string(), "back".to_string()]
    );
    assert_eq!(
        words(&Screen::Messenger("c1".to_string()).commands()),
        vec!["send".to_string(), "back".to_string()]
    );
}

fn options(list: &[&str]) -> Vec<String> {
    list.iter().map(|s| s.to_string()).collect()
}

fn pair(a: &str, b: &str) -> Option<(String, String)> {
    Some((a.to_string(), b.to_string()))
}

#[test]
fn option_and_argument_are_split() {
    let valid = options(&["add", "rm", "back"]);
    assert_eq!(match_option("add bob\n", &valid), pair("add", "bob"));
    assert_eq!(match_option("rm   carol  \r\n", &valid), pair("rm", "carol"));
    assert_eq!(match_option("back\n", &valid), pair("back", ""));
    assert_eq!(match_option("send hi\n", &valid), None);
    assert_eq!(match_option(" add bob\n", &valid), None);
    assert_eq!(match_option("", &valid), None);
    assert_eq!(match_option("add", &Vec::new()), None);
}

#[test]
fn shortest_option_is_tried_first() {
    let valid = options(&["new --multi", "new", "open", "back"]);
    assert_eq!(match_option("new --multi bob, carol\n", &valid), pair("new", "--multi bob, carol"));
    // Among options of one length, the one listed first.
    assert_eq!(match_option("abc", &options(&["ab", "a", "abc"])), pair("a", "bc"));
    assert_eq!(match_option("xy z", &options(&["x ", "xy"])), pair("xy", "z"));
}

#[test]
fn repeated_option_is_stripped_whole() {
    let valid = options(&["add"]);
    assert_eq!(match_option("addadd bob", &valid), pair("add", "bob"));
    assert_eq!(match_option("add add bob", &valid), pair("add", "add bob"));
    // An empty option matches every line and takes nothing off.
    assert_eq!(match_option("  hello  ", &options(&["", "h"])), pair("", "hello"));
}

#[test]
fn split_agrees_with_the_standard_library() {
    let valid = options(&["send", "back", "é"]);
    let lines = [
        "send hello world\n",
        "send\u{3000}wide blanks\u{2003}\n",
        "sendsend\tx\u{a0}",
        "back",
        "éé à la carte \u{85}",
        "nothing",
    ];
    for line in lines {
        let mut sorted: Vec<&String> = valid.iter().collect();
        sorted.sort_by(|a, b| a.len().cmp(&b.len()));
        let expected = sorted.iter().find(|o| line.starts_with(o.as_str())).map(|o| {
            (o.to_string(), line.trim_start_matches(o.as_str()).trim().to_string())
        });
        assert_eq!(match_option(line, &valid), expected);
    }
}

#[test]
fn command_is_read_from_a_line() {
    assert_eq!(
        read_command(&Screen::Friends, "add bob\n"),
        Some((Command::Add, "bob".to_string()))
    );
    assert_eq!(
        read_command(&Screen::Messenger("c1".to_string()), "send hi bob \n"),
        Some((Command::Send, "hi bob".to_string()))
    );
    assert_eq!(
        read_command(&Screen::MessagePanel, "new --multi a, b\n"),
        Some((Command::New, "--multi a, b".to_string()))
    );
    assert_eq!(read_command(&Screen::Welcome, "exit\n"), Some((Command::Exit, String::new())));
    assert_eq!(read_command(&Screen::Welcome, "msg\n"), None);
    assert_eq!(read_command(&Screen::Home, "\n"), None);
}

#[test]
fn errors_fall_into_families() {
    let table = [
        (Error::DuplicateUsername, ErrorKind::Validation),
        (Error::UnknownParticipant, ErrorKind::Validation),
        (Error::InvalidCredentials, ErrorKind::Auth),
        (Error::KeyGenFailure, ErrorKind::Crypto),
        (Error::KeyUnwrapFailed, ErrorKind::Crypto),
        (Error::EncryptFailure, ErrorKind::Crypto),
        (Error::DecryptFailure, ErrorKind::Crypto),
        (Error::KeyVaultCorruption, ErrorKind::Crypto),
        (Error::UnknownConversation, ErrorKind::NotFound),
        (Error::NoActiveSession, ErrorKind::NotFound),
        (Error::NotAParticipant, ErrorKind::Authorization),
        (Error::StoreUnavailable, ErrorKind::Store),
        (Error::StoreConflict, ErrorKind::Store),
    ];
    for (error, kind) in table {
        assert_eq!(error.kind(), kind);
    }
}
