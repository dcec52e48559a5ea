//! Helpers on text: lists of strings, lengths in bytes, and work character
//! by character.

use crate::primitives::push_char;
use vstd::prelude::*;
use vstd::string::StrSliceExecFns;
use vstd::utf8::encode_utf8;

verus! {

/// The texts of a list of strings.
pub open spec fn texts(names: Seq<String>) -> Seq<Seq<char>> {
    Seq::new(names.len(), |i: int| names[i]@)
}

/// The length of `text` in bytes of UTF-8.
pub open spec fn byte_len(text: Seq<char>) -> nat {
    encode_utf8(text).len()
}

/// Whether `c` has the Unicode property White_Space.
pub open spec fn white_space(c: char) -> bool {
    let n = c as u32;
    ||| 0x09 <= n <= 0x0d
    ||| n == 0x20
    ||| n == 0x85
    ||| n == 0xa0
    ||| n == 0x1680
    ||| 0x2000 <= n <= 0x200a
    ||| n == 0x2028
    ||| n == 0x2029
    ||| n == 0x202f
    ||| n == 0x205f
    ||| n == 0x3000
}

/// `text` without the white space at its start.
pub open spec fn trimmed_start(text: Seq<char>) -> Seq<char>
    decreases text.len(),
{
    if text.len() > 0 && white_space(text[0]) {
        trimmed_start(text.drop_first())
    } else {
        text
    }
}

/// `text` without the white space at its end.
pub open spec fn trimmed_end(text: Seq<char>) -> Seq<char>
    decreases text.len(),
{
    if text.len() > 0 && white_space(text.last()) {
        trimmed_end(text.drop_last())
    } else {
        text
    }
}

/// `text` without the white space at its start and at its end.
pub open spec fn trimmed(text: Seq<char>) -> Seq<char> {
    trimmed_end(trimmed_start(text))
}

/// Whether `text` begins with `prefix`.
pub open spec fn begins_with(text: Seq<char>, prefix: Seq<char>) -> bool {
    prefix.len() <= text.len() && text.subrange(0, prefix.len() as int) == prefix
}

/// `text` without the copies of `prefix` that it begins with, however many.
/// An empty prefix takes nothing off.
pub open spec fn stripped(text: Seq<char>, prefix: Seq<char>) -> Seq<char>
    decreases text.len(),
{
    if prefix.len() > 0 && begins_with(text, prefix) {
        stripped(text.subrange(prefix.len() as int, text.len() as int), prefix)
    } else {
        text
    }
}

/// `n` times the character `c`.
pub open spec fn repeated(c: char, n: nat) -> Seq<char> {
    Seq::new(n, |i: int| c)
}

/// A copy of a list of strings.
pub fn copy_names(names: &Vec<String>) -> (out: Vec<String>)
    ensures
        texts(out@) == texts(names@),
{
    let mut out: Vec<String> = Vec::new();
    let mut i: usize = 0;
    while i < names.len()
        invariant
            i <= names@.len(),
            out@.len() == i,
            forall|k: int| 0 <= k < i ==> out@[k]@ == names@[k]@,
        decreases names@.len() - i,
    {
        out.push(names[i].clone());
        i += 1;
    }
    assert(texts(out@) =~= texts(names@));
    out
}

/// Whether `name` is one of `names`.
pub fn holds_name(names: &Vec<String>, name: &String) -> (found: bool)
    ensures
        found == texts(names@).contains(name@),
{
    let mut i: usize = 0;
    while i < names.len()
        invariant
            i <= names@.len(),
            forall|k: int| 0 <= k < i ==> names@[k]@ != name@,
        decreases names@.len() - i,
    {
        if names[i] == *name {
            assert(texts(names@)[i as int] == name@);
            return true;
        }
        i += 1;
    }
    assert(!texts(names@).contains(name@)) by {
        if texts(names@).contains(name@) {
            let k = choose|k: int| 0 <= k < texts(names@).len() && texts(names@)[k] == name@;
            assert(names@[k]@ == name@);
        }
    }
    false
}

/// Whether `c` has the Unicode property White_Space.
pub fn is_white_space(c: char) -> (yes: bool)
    ensures
        yes == white_space(c),
{
    let n = c as u32;
    (0x09 <= n && n <= 0x0d) || n == 0x20 || n == 0x85 || n == 0xa0 || n == 0x1680 || (0x2000 <= n
        && n <= 0x200a) || n == 0x2028 || n == 0x2029 || n == 0x202f || n == 0x205f || n == 0x3000
}

/// The characters of `text`.
pub fn chars_of(text: &str) -> (out: Vec<char>)
    ensures
        out@ == text@,
{
    let n = text.unicode_len();
    let mut out: Vec<char> = Vec::new();
    let mut i: usize = 0;
    while i < n
        invariant
            i <= n,
            n == text@.len(),
            out@ == text@.subrange(0, i as int),
        decreases n - i,
    {
        out.push(text.get_char(i));
        i += 1;
        assert(out@ =~= text@.subrange(0, i as int));
    }
    assert(text@.subrange(0, n as int) =~= text@);
    out
}

/// The text made of the characters of `chars` from position `from` up to,
/// not including, `to`.
pub fn text_of(chars: &Vec<char>, from: usize, to: usize) -> (out: String)
    requires
        from <= to <= chars@.len(),
    ensures
        out@ == chars@.subrange(from as int, to as int),
{
    let mut out = String::new();
    let mut i: usize = from;
    assert(out@ =~= chars@.subrange(from as int, i as int));
    while i < to
        invariant
            from <= i <= to <= chars@.len(),
            out@ == chars@.subrange(from as int, i as int),
        decreases to - i,
    {
        push_char(&mut out, chars[i]);
        i += 1;
        assert(out@ =~= chars@.subrange(from as int, i as int));
    }
    out
}

/// Appends `n` times the character `c` to `text`.
pub fn push_repeated(text: &mut String, c: char, n: usize)
    ensures
        final(text)@ == old(text)@ + repeated(c, n as nat),
{
    let mut i: usize = 0;
    assert(text@ =~= old(text)@ + repeated(c, 0));
    while i < n
        invariant
            i <= n,
            text@ == old(text)@ + repeated(c, i as nat),
        decreases n - i,
    {
        push_char(text, c);
        i += 1;
        assert(text@ =~= old(text)@ + repeated(c, i as nat));
    }
}

/// Whether the characters of `text` from position `at` on begin with `prefix`.
pub fn begins_at(text: &Vec<char>, at: usize, prefix: &Vec<char>) -> (yes: bool)
    requires
        at <= text@.len(),
    ensures
        yes == begins_with(text@.subrange(at as int, text@.len() as int), prefix@),
{
    let ghost rest = text@.subrange(at as int, text@.len() as int);
    if prefix.len() > text.len() - at {
        return false;
    }
    let mut i: usize = 0;
    while i < prefix.len()
        invariant
            i <= prefix@.len(),
            at <= text@.len() <= usize::MAX,
            prefix@.len() <= text@.len() - at,
            rest == text@.subrange(at as int, text@.len() as int),
            forall|k: int| 0 <= k < i ==> text@[at + k] == prefix@[k],
        decreases prefix@.len() - i,
    {
        if text[at + i] != prefix[i] {
            assert(rest.subrange(0, prefix@.len() as int)[i as int] != prefix@[i as int]);
            return false;
        }
        i += 1;
    }
    assert(rest.subrange(0, prefix@.len() as int) =~= prefix@);
    true
}

/// The position behind the copies of `prefix` that `text` begins with.
pub fn skip_copies(text: &Vec<char>, prefix: &Vec<char>) -> (at: usize)
    ensures
        at <= text@.len(),
        text@.subrange(at as int, text@.len() as int) == stripped(text@, prefix@),
{
    let mut at: usize = 0;
    assert(text@.subrange(0, text@.len() as int) =~= text@);
    if prefix.len() == 0 {
        return 0;
    }
    let n = text.len();
    while begins_at(text, at, prefix)
        invariant
            at <= text@.len() == n,
            prefix@.len() > 0,
            stripped(text@.subrange(at as int, text@.len() as int), prefix@) == stripped(
                text@,
                prefix@,
            ),
        decreases text@.len() - at,
    {
        let ghost rest = text@.subrange(at as int, text@.len() as int);
        assert(rest.subrange(prefix@.len() as int, rest.len() as int) =~= text@.subrange(
            at + prefix@.len(),
            text@.len() as int,
        ));
        at += prefix.len();
    }
    at
}

/// The bounds of what is left of the characters of `text` between `from`
/// and its end when the white space on both sides is taken away.
pub fn trim_bounds(text: &Vec<char>, from: usize) -> (bounds: (usize, usize))
    requires
        from <= text@.len(),
    ensures
        from <= bounds.0 <= bounds.1 <= text@.len(),
        text@.subrange(bounds.0 as int, bounds.1 as int) == trimmed(
            text@.subrange(from as int, text@.len() as int),
        ),
{
    let mut start: usize = from;
    while start < text.len() && is_white_space(text[start])
        invariant
            from <= start <= text@.len(),
            trimmed_start(text@.subrange(start as int, text@.len() as int)) == trimmed_start(
                text@.subrange(from as int, text@.len() as int),
            ),
        decreases text@.len() - start,
    {
        let ghost rest = text@.subrange(start as int, text@.len() as int);
        assert(rest.drop_first() =~= text@.subrange(start + 1, text@.len() as int));
        start += 1;
    }
    let mut end: usize = text.len();
    while end > start && is_white_space(text[end - 1])
        invariant
            start <= end <= text@.len(),
            trimmed_end(text@.subrange(start as int, end as int)) == trimmed_end(
                text@.subrange(start as int, text@.len() as int),
            ),
        decreases end - start,
    {
        let ghost rest = text@.subrange(start as int, end as int);
        assert(rest.drop_last() =~= text@.subrange(start as int, end - 1));
        end -= 1;
    }
    (start, end)
}

} // verus!
