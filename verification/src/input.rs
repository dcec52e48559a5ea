//! Finding the command in a line of input.
//!
//! A line is matched against the words a menu accepts, the shortest word
//! first and, among words of one length, the one listed first. What follows
//! the word, without the white space around it, is the argument.

use crate::menu::{accepted, Command, Screen};
use crate::text::{
    begins_at, begins_with, byte_len, chars_of, skip_copies, stripped, text_of, texts,
    trim_bounds, trimmed,
};
use vstd::prelude::*;

verus! {

/// Whether option `i` is tried before option `j`: it is shorter in bytes, or
/// as long and listed no later.
pub open spec fn tried_before(options: Seq<Seq<char>>, i: int, j: int) -> bool {
    byte_len(options[i]) < byte_len(options[j]) || (byte_len(options[i]) == byte_len(options[j])
        && i <= j)
}

/// Whether option `i` is the one that `input` is taken to begin with: the
/// first, in the order of trying, that it does begin with.
pub open spec fn is_match(input: Seq<char>, options: Seq<Seq<char>>, i: int) -> bool {
    &&& 0 <= i < options.len()
    &&& begins_with(input, options[i])
    &&& forall|j: int|
        0 <= j < options.len() && begins_with(input, #[trigger] options[j]) ==> tried_before(
            options,
            i,
            j,
        )
}

/// The position of the option that `input` is taken to begin with, if it
/// begins with any.
pub open spec fn matched(input: Seq<char>, options: Seq<Seq<char>>) -> Option<int> {
    if exists|i: int| is_match(input, options, i) {
        Some(choose|i: int| is_match(input, options, i))
    } else {
        None
    }
}

/// What is left of `input` for an argument behind `option`.
pub open spec fn argument_of(input: Seq<char>, option: Seq<char>) -> Seq<char> {
    trimmed(stripped(input, option))
}

/// At most one option is the match.
pub proof fn lemma_match_is_unique(input: Seq<char>, options: Seq<Seq<char>>, i: int)
    requires
        is_match(input, options, i),
    ensures
        matched(input, options) == Some(i),
{
    let k = choose|k: int| is_match(input, options, k);
    assert(tried_before(options, i, k));
    assert(tried_before(options, k, i));
}

/// The word that stands for `command` in a line of input.
pub open spec fn word_of(command: Command) -> Seq<char> {
    match command {
        Command::Register => "register"@,
        Command::Login => "login"@,
        Command::Exit => "exit"@,
        Command::Msg => "msg"@,
        Command::Manage => "manage"@,
        Command::Logout => "logout"@,
        Command::Add => "add"@,
        Command::Rm => "rm"@,
        Command::Back => "back"@,
        Command::New => "new"@,
        Command::NewMulti => "new --multi"@,
        Command::Open => "open"@,
        Command::Send => "send"@,
    }
}

/// The words of a list of commands.
pub open spec fn words_of(commands: Seq<Command>) -> Seq<Seq<char>> {
    Seq::new(commands.len(), |i: int| word_of(commands[i]))
}

/// The position of the option that `line` is taken to begin with.
fn find_match(line: &Vec<char>, options: &Vec<String>) -> (found: Option<usize>)
    ensures
        found matches Some(i) ==> i < options@.len() && matched(line@, texts(options@)) == Some(
            i as int,
        ),
        found is None ==> matched(line@, texts(options@)) is None,
{
    let ghost listed = texts(options@);
    let mut best: Option<usize> = None;
    let mut j: usize = 0;
    while j < options.len()
        invariant
            j <= options@.len(),
            listed == texts(options@),
            best matches Some(b) ==> b < j && begins_with(line@, listed[b as int]),
            best matches Some(b) ==> forall|k: int|
                0 <= k < j && begins_with(line@, #[trigger] listed[k]) ==> tried_before(
                    listed,
                    b as int,
                    k,
                ),
            best is None ==> forall|k: int|
                0 <= k < j ==> !begins_with(line@, #[trigger] listed[k]),
        decreases options@.len() - j,
    {
        let candidate = chars_of(options[j].as_str());
        assert(line@.subrange(0, line@.len() as int) =~= line@);
        if begins_at(line, 0, &candidate) {
            match best {
                None => {
                    best = Some(j);
                },
                Some(b) => {
                    let shorter = options[j].as_str().as_bytes().len()
                        < options[b].as_str().as_bytes().len();
                    if shorter {
                        best = Some(j);
                    }
                },
            }
        }
        j += 1;
    }
    proof {
        match best {
            None => {
                if matched(line@, listed) is Some {
                    let k = choose|k: int| is_match(line@, listed, k);
                    assert(begins_with(line@, listed[k]));
                }
            },
            Some(b) => {
                lemma_match_is_unique(line@, listed, b as int);
            },
        }
    }
    best
}

/// What is left of `line` for an argument behind `option`.
fn argument(line: &Vec<char>, option: &str) -> (out: String)
    ensures
        out@ == argument_of(line@, option@),
{
    let word = chars_of(option);
    let from = skip_copies(line, &word);
    let (start, end) = trim_bounds(line, from);
    text_of(line, start, end)
}

/// The option that `input` begins with and the argument behind it, or `None`
/// where it begins with none of `valid_options`.
///
/// The option is the one that [`matched`] says, the argument what
/// [`argument_of`] says.
pub fn match_option(input: &str, valid_options: &Vec<String>) -> (out: Option<(String, String)>)
    ensures
        matched(input@, texts(valid_options@)) matches Some(i) ==> (out matches Some(pair)
            && pair.0@ == valid_options@[i]@ && pair.1@ == argument_of(
            input@,
            valid_options@[i]@,
        )),
        matched(input@, texts(valid_options@)) is None ==> out is None,
{
    let line = chars_of(input);
    match find_match(&line, valid_options) {
        Some(i) => Some(
            (valid_options[i].clone(), argument(&line, valid_options[i].as_str())),
        ),
        None => None,
    }
}

impl Command {
    /// The word that stands for this command in a line of input.
    pub fn word(&self) -> (word: String)
        ensures
            word@ == word_of(*self),
    {
        match self {
            Command::Register => "register".to_owned(),
            Command::Login => "login".to_owned(),
            Command::Exit => "exit".to_owned(),
            Command::Msg => "msg".to_owned(),
            Command::Manage => "manage".to_owned(),
            Command::Logout => "logout".to_owned(),
            Command::Add => "add".to_owned(),
            Command::Rm => "rm".to_owned(),
            Command::Back => "back".to_owned(),
            Command::New => "new".to_owned(),
            Command::NewMulti => "new --multi".to_owned(),
            Command::Open => "open".to_owned(),
            Command::Send => "send".to_owned(),
        }
    }
}

/// The words of `commands`, in their order.
pub fn words(commands: &Vec<Command>) -> (out: Vec<String>)
    ensures
        texts(out@) == words_of(commands@),
{
    let mut out: Vec<String> = Vec::new();
    let mut i: usize = 0;
    while i < commands.len()
        invariant
            i <= commands@.len(),
            out@.len() == i,
            forall|k: int| 0 <= k < i ==> out@[k]@ == word_of(commands@[k]),
        decreases commands@.len() - i,
    {
        out.push(commands[i].word());
        i += 1;
    }
    assert(texts(out@) =~= words_of(commands@));
    out
}

/// The command that `input` begins with on `screen` and the argument behind
/// it, or `None` where the line begins with no word that the screen accepts.
///
/// The command is the accepted one at the position that [`matched`] says for
/// the words of the screen, the argument what [`argument_of`] says for its
/// word. As the shortest word is tried first, a command whose word begins
/// with the word of another accepted command is never read: what follows the
/// shorter word becomes the argument.
pub fn read_command(screen: &Screen, input: &str) -> (out: Option<(Command, String)>)
    ensures
        matched(input@, words_of(accepted(screen@))) matches Some(i) ==> (out matches Some(pair)
            && pair.0 == accepted(screen@)[i] && pair.1@ == argument_of(
            input@,
            word_of(accepted(screen@)[i]),
        )),
        matched(input@, words_of(accepted(screen@))) is None ==> out is None,
{
    let commands = screen.commands();
    let options = words(&commands);
    let line = chars_of(input);
    match find_match(&line, &options) {
        Some(i) => Some((commands[i], argument(&line, options[i].as_str()))),
        None => None,
    }
}

} // verus!
