//! The screens of the terminal front end and the moves between them.
//!
//! The front end reads a line, finds the command in it, and asks [`step`]
//! what follows: the screen to draw next and the one thing to do before
//! drawing it. It then does that thing and draws. Nothing here reads or
//! prints.

use crate::account::{Account, AccountStore};
use crate::conversation::ConversationStore;
use crate::error::Error;
use crate::text::{holds_name, texts};
use vstd::prelude::*;

verus! {

/// A word that a menu accepts at the start of a line.
#[derive(Clone, Copy, Debug, PartialEq, Eq, Structural)]
pub enum Command {
    Register,
    Login,
    Exit,
    Msg,
    Manage,
    Logout,
    Add,
    Rm,
    Back,
    New,
    NewMulti,
    Open,
    Send,
}

/// A screen of the front end.
#[derive(Clone, Debug, PartialEq, Eq)]
pub enum Screen {
    /// Register, log in, or leave.
    Welcome,
    /// The home page of a user who is logged in.
    Home,
    /// The friends of the user, to add to and remove from.
    Friends,
    /// Where conversations are started.
    MessagePanel,
    /// The conversations the user takes part in.
    ConversationList,
    /// One conversation, by its identifier.
    Messenger(String),
}

/// What a [`Screen`] holds.
pub enum ScreenView {
    Welcome,
    Home,
    Friends,
    MessagePanel,
    ConversationList,
    Messenger(Seq<char>),
}

impl View for Screen {
    type V = ScreenView;

    open spec fn view(&self) -> ScreenView {
        match self {
            Screen::Welcome => ScreenView::Welcome,
            Screen::Home => ScreenView::Home,
            Screen::Friends => ScreenView::Friends,
            Screen::MessagePanel => ScreenView::MessagePanel,
            Screen::ConversationList => ScreenView::ConversationList,
            Screen::Messenger(id) => ScreenView::Messenger(id@),
        }
    }
}

/// What the front end does before it draws the next screen.
#[derive(Clone, Debug, PartialEq, Eq)]
pub enum Action {
    /// Nothing.
    Redraw,
    /// Ask for a new username and password, and register them.
    Register,
    /// Ask for a username and a password, and log in.
    Login,
    /// Leave the program.
    Exit,
    /// End the session and wipe its key.
    Logout,
    /// Add the named user to the friends.
    AddFriend(String),
    /// Remove the named user from the friends.
    RemoveFriend(String),
    /// Open a conversation with the named friend.
    StartConversation(String),
    /// Send the text into the conversation on screen.
    Send(String),
    /// Say that the named user is not a friend.
    NotAFriend(String),
    /// Say that no conversation has the given identifier.
    NoSuchConversation(String),
    /// Say that conversations among several friends cannot be opened yet.
    Unavailable,
}

/// What an [`Action`] holds.
pub enum ActionView {
    Redraw,
    Register,
    Login,
    Exit,
    Logout,
    AddFriend(Seq<char>),
    RemoveFriend(Seq<char>),
    StartConversation(Seq<char>),
    Send(Seq<char>),
    NotAFriend(Seq<char>),
    NoSuchConversation(Seq<char>),
    Unavailable,
}

impl View for Action {
    type V = ActionView;

    open spec fn view(&self) -> ActionView {
        match self {
            Action::Redraw => ActionView::Redraw,
            Action::Register => ActionView::Register,
            Action::Login => ActionView::Login,
            Action::Exit => ActionView::Exit,
            Action::Logout => ActionView::Logout,
            Action::AddFriend(name) => ActionView::AddFriend(name@),
            Action::RemoveFriend(name) => ActionView::RemoveFriend(name@),
            Action::StartConversation(name) => ActionView::StartConversation(name@),
            Action::Send(text) => ActionView::Send(text@),
            Action::NotAFriend(name) => ActionView::NotAFriend(name@),
            Action::NoSuchConversation(id) => ActionView::NoSuchConversation(id@),
            Action::Unavailable => ActionView::Unavailable,
        }
    }
}

/// The commands that `screen` accepts, in the order its menu lists them.
pub open spec fn accepted(screen: ScreenView) -> Seq<Command> {
    match screen {
        ScreenView::Welcome => seq![Command::Register, Command::Login, Command::Exit],
        ScreenView::Home => seq![Command::Msg, Command::Manage, Command::Logout],
        ScreenView::Friends => seq![Command::Add, Command::Rm, Command::Back],
        ScreenView::MessagePanel => seq![
            Command::New,
            Command::NewMulti,
            Command::Open,
            Command::Back,
        ],
        ScreenView::ConversationList => seq![Command::Open, Command::Back],
        ScreenView::Messenger(_) => seq![Command::Send, Command::Back],
    }
}

/// The screen that follows and what is done on the way, when `command` comes
/// with `argument` on `screen`. `friends` are the friends of the user and
/// `known` says whether a conversation is stored under `argument`.
///
/// A command that the screen does not accept changes nothing.
pub open spec fn stepped(
    screen: ScreenView,
    command: Command,
    argument: Seq<char>,
    friends: Seq<Seq<char>>,
    known: bool,
) -> (ScreenView, ActionView) {
    match (screen, command) {
        (ScreenView::Welcome, Command::Register) => (ScreenView::Welcome, ActionView::Register),
        (ScreenView::Welcome, Command::Login) => (ScreenView::Welcome, ActionView::Login),
        (ScreenView::Welcome, Command::Exit) => (ScreenView::Welcome, ActionView::Exit),
        (ScreenView::Home, Command::Msg) => (ScreenView::MessagePanel, ActionView::Redraw),
        (ScreenView::Home, Command::Manage) => (ScreenView::Friends, ActionView::Redraw),
        (ScreenView::Home, Command::Logout) => (ScreenView::Welcome, ActionView::Logout),
        (ScreenView::Friends, Command::Add) => (
            ScreenView::Friends,
            ActionView::AddFriend(argument),
        ),
        (ScreenView::Friends, Command::Rm) => (
            ScreenView::Friends,
            ActionView::RemoveFriend(argument),
        ),
        (ScreenView::Friends, Command::Back) => (ScreenView::Home, ActionView::Redraw),
        (ScreenView::MessagePanel, Command::New) => if friends.contains(argument) {
            (ScreenView::ConversationList, ActionView::StartConversation(argument))
        } else {
            (ScreenView::MessagePanel, ActionView::NotAFriend(argument))
        },
        (ScreenView::MessagePanel, Command::NewMulti) => (
            ScreenView::MessagePanel,
            ActionView::Unavailable,
        ),
        (ScreenView::MessagePanel, Command::Open) => (
            ScreenView::ConversationList,
            ActionView::Redraw,
        ),
        (ScreenView::MessagePanel, Command::Back) => (ScreenView::Home, ActionView::Redraw),
        (ScreenView::ConversationList, Command::Open) => if known {
            (ScreenView::Messenger(argument), ActionView::Redraw)
        } else {
            (ScreenView::ConversationList, ActionView::NoSuchConversation(argument))
        },
        (ScreenView::ConversationList, Command::Back) => (
            ScreenView::MessagePanel,
            ActionView::Redraw,
        ),
        (ScreenView::Messenger(id), Command::Send) => (
            ScreenView::Messenger(id),
            ActionView::Send(argument),
        ),
        (ScreenView::Messenger(_), Command::Back) => (
            ScreenView::ConversationList,
            ActionView::Redraw,
        ),
        (other, _) => (other, ActionView::Redraw),
    }
}

/// Only a command that the screen accepts ever changes the screen or does
/// anything.
pub proof fn law_unaccepted_is_idle(
    screen: ScreenView,
    command: Command,
    argument: Seq<char>,
    friends: Seq<Seq<char>>,
    known: bool,
)
    requires
        !accepted(screen).contains(command),
    ensures
        stepped(screen, command, argument, friends, known) == (screen, ActionView::Redraw),
{
}

/// No command leaves the welcome screen: a user's pages open only through
/// [`init`], after a login or a registration that succeeded. And a user's
/// pages lead back to the welcome screen by logout alone.
pub proof fn law_welcome_is_the_gate(
    screen: ScreenView,
    command: Command,
    argument: Seq<char>,
    friends: Seq<Seq<char>>,
    known: bool,
)
    ensures
        screen is Welcome ==> stepped(screen, command, argument, friends, known).0 is Welcome,
        !(screen is Welcome) && stepped(screen, command, argument, friends, known).0 is Welcome
            ==> stepped(screen, command, argument, friends, known).1 is Logout,
{
}

impl Screen {
    /// A copy of this screen.
    pub fn duplicate(&self) -> (copy: Screen)
        ensures
            copy@ == self@,
    {
        match self {
            Screen::Welcome => Screen::Welcome,
            Screen::Home => Screen::Home,
            Screen::Friends => Screen::Friends,
            Screen::MessagePanel => Screen::MessagePanel,
            Screen::ConversationList => Screen::ConversationList,
            Screen::Messenger(id) => Screen::Messenger(id.clone()),
        }
    }

    /// The commands that this screen accepts, in the order its menu lists them.
    pub fn commands(&self) -> (list: Vec<Command>)
        ensures
            list@ == accepted(self@),
    {
        let mut list: Vec<Command> = Vec::new();
        match self {
            Screen::Welcome => {
                list.push(Command::Register);
                list.push(Command::Login);
                list.push(Command::Exit);
            },
            Screen::Home => {
                list.push(Command::Msg);
                list.push(Command::Manage);
                list.push(Command::Logout);
            },
            Screen::Friends => {
                list.push(Command::Add);
                list.push(Command::Rm);
                list.push(Command::Back);
            },
            Screen::MessagePanel => {
                list.push(Command::New);
                list.push(Command::NewMulti);
                list.push(Command::Open);
                list.push(Command::Back);
            },
            Screen::ConversationList => {
                list.push(Command::Open);
                list.push(Command::Back);
            },
            Screen::Messenger(_) => {
                list.push(Command::Send);
                list.push(Command::Back);
            },
        }
        list
    }
}

/// The first screen of a user who has logged in with `account`: the home
/// page, provided the store holds an account under that username.
/// `NoActiveSession` where it holds none.
pub fn init(store: &AccountStore, account: &Account) -> (out: Result<Screen, Error>)
    ensures
        store@.contains_key(account.username@) ==> (out matches Ok(screen) && screen@
            == ScreenView::Home),
        !store@.contains_key(account.username@) ==> out == Err::<Screen, Error>(
            Error::NoActiveSession,
        ),
{
    if store.contains(&account.username) {
        Ok(Screen::Home)
    } else {
        Err(Error::NoActiveSession)
    }
}

/// The screen that follows `screen` and what is to be done on the way, when
/// `command` comes with `argument`. The friends are those of `account`, and a
/// conversation is known where `conversations` holds one under `argument`.
///
/// The outcome is exactly [`stepped`].
pub fn step(
    screen: &Screen,
    command: Command,
    argument: &str,
    account: &Account,
    conversations: &ConversationStore,
) -> (out: (Screen, Action))
    ensures
        (out.0@, out.1@) == stepped(
            screen@,
            command,
            argument@,
            texts(account.friends@),
            conversations@.contains_key(argument@),
        ),
{
    match (screen, command) {
        (Screen::Welcome, Command::Register) => (Screen::Welcome, Action::Register),
        (Screen::Welcome, Command::Login) => (Screen::Welcome, Action::Login),
        (Screen::Welcome, Command::Exit) => (Screen::Welcome, Action::Exit),
        (Screen::Home, Command::Msg) => (Screen::MessagePanel, Action::Redraw),
        (Screen::Home, Command::Manage) => (Screen::Friends, Action::Redraw),
        (Screen::Home, Command::Logout) => (Screen::Welcome, Action::Logout),
        (Screen::Friends, Command::Add) => (
            Screen::Friends,
            Action::AddFriend(argument.to_owned()),
        ),
        (Screen::Friends, Command::Rm) => (
            Screen::Friends,
            Action::RemoveFriend(argument.to_owned()),
        ),
        (Screen::Friends, Command::Back) => (Screen::Home, Action::Redraw),
        (Screen::MessagePanel, Command::New) => {
            let friend = argument.to_owned();
            if holds_name(&account.friends, &friend) {
                (Screen::ConversationList, Action::StartConversation(friend))
            } else {
                (Screen::MessagePanel, Action::NotAFriend(friend))
            }
        },
        (Screen::MessagePanel, Command::NewMulti) => (Screen::MessagePanel, Action::Unavailable),
        (Screen::MessagePanel, Command::Open) => (Screen::ConversationList, Action::Redraw),
        (Screen::MessagePanel, Command::Back) => (Screen::Home, Action::Redraw),
        (Screen::ConversationList, Command::Open) => {
            if conversations.contains(argument) {
                (Screen::Messenger(argument.to_owned()), Action::Redraw)
            } else {
                (Screen::ConversationList, Action::NoSuchConversation(argument.to_owned()))
            }
        },
        (Screen::ConversationList, Command::Back) => (Screen::MessagePanel, Action::Redraw),
        (Screen::Messenger(id), Command::Send) => (
            Screen::Messenger(id.clone()),
            Action::Send(argument.to_owned()),
        ),
        (Screen::Messenger(_), Command::Back) => (Screen::ConversationList, Action::Redraw),
        (other, _) => (other.duplicate(), Action::Redraw),
    }
}

} // verus!
