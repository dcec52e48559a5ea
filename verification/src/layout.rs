//! Laying out the lines of a screen: a frame of floor characters above and
//! below, walls left and right, and the text centred or pushed aside.
//!
//! Widths count bytes of UTF-8, as the length of a string does: a line of
//! plain ASCII is as wide as it has characters.

use crate::primitives::push_char;
use crate::text::{byte_len, push_repeated, repeated, texts};
use vstd::prelude::*;
use vstd::string::StringExecFns;

verus! {

/// Where a line stands within the width it is given.
#[derive(Clone, Copy, Debug, PartialEq, Eq, Structural)]
pub enum Position {
    Center,
    Left,
    Right,
}

/// Columns that a screen is wider than its longest line.
pub const MARGIN: usize = 6;

/// A line laid out within `length` columns.
///
/// Centred, it stands between two wall characters, with the columns that
/// `length` leaves over shared out as blanks on both sides, the odd one to
/// the right; a line longer than `length` gets no blanks. Pushed left or
/// right, it gets `length` blanks on the other side and no walls.
pub open spec fn formatted(text: Seq<char>, length: nat, pos: Position, wall: char) -> Seq<char> {
    match pos {
        Position::Center => {
            let room = if length > byte_len(text) {
                (length - byte_len(text)) as nat
            } else {
                0
            };
            seq![wall] + repeated(' ', room / 2) + text + repeated(' ', (room - room / 2) as nat)
                + seq![wall]
        },
        Position::Left => text + repeated(' ', length),
        Position::Right => repeated(' ', length) + text,
    }
}

/// The byte length of the longest of `lines`; zero where there is none.
pub open spec fn longest(lines: Seq<Seq<char>>) -> nat
    decreases lines.len(),
{
    if lines.len() == 0 {
        0
    } else if byte_len(lines.last()) > longest(lines.drop_last()) {
        byte_len(lines.last())
    } else {
        longest(lines.drop_last())
    }
}

/// The width of the screen that shows `lines`.
pub open spec fn ui_width(lines: Seq<Seq<char>>) -> nat {
    longest(lines) + MARGIN as nat
}

/// The screen that shows `lines`: a row of floor characters, the lines, and
/// a row of floor characters again, each laid out within the width of the
/// screen.
pub open spec fn ui_lines(lines: Seq<Seq<char>>, pos: Position, floor: char, wall: char) -> Seq<
    Seq<char>,
> {
    let width = ui_width(lines);
    let title = formatted(repeated(floor, width), width, pos, wall);
    seq![title] + Seq::new(lines.len(), |i: int| formatted(lines[i], width, pos, wall)) + seq![
        title,
    ]
}

/// Lays `string` out within `length` columns, as [`formatted`] says, with
/// `wall_char` for the walls.
pub fn format_string_ui(string: &str, length: usize, pos: &Position, wall_char: char) -> (out:
    String)
    ensures
        out@ == formatted(string@, length as nat, *pos, wall_char),
{
    let mut out = String::new();
    match pos {
        Position::Center => {
            let string_length = string.as_bytes().len();
            let room: usize = if length > string_length {
                length - string_length
            } else {
                0
            };
            push_char(&mut out, wall_char);
            push_repeated(&mut out, ' ', room / 2);
            out.append(string);
            push_repeated(&mut out, ' ', room - room / 2);
            push_char(&mut out, wall_char);
            assert(out@ =~= formatted(string@, length as nat, *pos, wall_char));
        },
        Position::Left => {
            out.append(string);
            push_repeated(&mut out, ' ', length);
            assert(out@ =~= formatted(string@, length as nat, *pos, wall_char));
        },
        Position::Right => {
            push_repeated(&mut out, ' ', length);
            out.append(string);
            assert(out@ =~= formatted(string@, length as nat, *pos, wall_char));
        },
    }
    out
}

/// The byte length of the longest of `lines`.
fn longest_line(lines: &Vec<String>) -> (n: usize)
    ensures
        n == longest(texts(lines@)),
{
    let ghost all = texts(lines@);
    let mut n: usize = 0;
    let mut i: usize = 0;
    assert(all.subrange(0, 0) =~= Seq::<Seq<char>>::empty());
    while i < lines.len()
        invariant
            i <= lines@.len(),
            all == texts(lines@),
            n == longest(all.subrange(0, i as int)),
        decreases lines@.len() - i,
    {
        let ghost upto = all.subrange(0, i + 1);
        assert(upto.drop_last() =~= all.subrange(0, i as int));
        assert(upto.last() == lines@[i as int]@);
        let len = lines[i].as_str().as_bytes().len();
        if len > n {
            n = len;
        }
        i += 1;
    }
    assert(all.subrange(0, lines@.len() as int) =~= all);
    n
}

/// The lines of the screen that shows `text`, as [`ui_lines`] says, with
/// `floor_char` for the rows above and below and `wall_char` for the walls.
pub fn frame_ui(text: &Vec<String>, position: Position, floor_char: char, wall_char: char) -> (out:
    Vec<String>)
    requires
        ui_width(texts(text@)) <= usize::MAX,
    ensures
        texts(out@) == ui_lines(
            texts(text@),
            position,
            floor_char,
            wall_char,
        ),
{
    let ghost lines = texts(text@);
    let width = longest_line(text) + MARGIN;
    let mut row = String::new();
    push_repeated(&mut row, floor_char, width);
    assert(row@ =~= repeated(floor_char, width as nat));
    let mut out: Vec<String> = Vec::new();
    out.push(format_string_ui(row.as_str(), width, &position, wall_char));
    let mut i: usize = 0;
    while i < text.len()
        invariant
            i <= text@.len(),
            lines == texts(text@),
            width == ui_width(lines),
            row@ == repeated(floor_char, width as nat),
            out@.len() == i + 1,
            out@[0]@ == formatted(row@, width as nat, position, wall_char),
            forall|k: int|
                0 <= k < i ==> (#[trigger] out@[k + 1])@ == formatted(
                    lines[k],
                    width as nat,
                    position,
                    wall_char,
                ),
        decreases text@.len() - i,
    {
        out.push(format_string_ui(text[i].as_str(), width, &position, wall_char));
        i += 1;
    }
    out.push(format_string_ui(row.as_str(), width, &position, wall_char));
    proof {
        let shown = texts(out@);
        let wanted = ui_lines(lines, position, floor_char, wall_char);
        assert(shown.len() == wanted.len());
        assert forall|k: int| 0 <= k < shown.len() implies shown[k] == wanted[k] by {
            if 0 < k <= lines.len() {
                assert(out@[(k - 1) + 1]@ == formatted(
                    lines[k - 1],
                    width as nat,
                    position,
                    wall_char,
                ));
            }
        }
        assert(shown =~= wanted);
    }
    out
}

} // verus!
