//! The pieces of JSON text that a record is made of: strings, numbers and
//! fixed words, written and read back.
//!
//! Reading works on what is left of a text: each `take_` function says what
//! stands at the front and what is left behind it.

use crate::text::{
    chars_of, decimal, digit_char, digit_of, digit_value, lemma_number_of_decimal, number_of,
    read_number,
};
use vstd::prelude::*;
use vstd::string::StringExecFns;

verus! {

/// How one character stands inside a JSON string: the quotation mark and
/// the backslash behind a backslash, the five control characters that have
/// a letter as that letter behind a backslash, every other character below
/// the space as `\u00` and two lower-case hexadecimal digits, and every
/// other character as itself.
pub open spec fn escape_char(c: char) -> Seq<char> {
    if c == '"' {
        seq!['\\', '"']
    } else if c == '\\' {
        seq!['\\', '\\']
    } else if c == '\u{8}' {
        seq!['\\', 'b']
    } else if c == '\u{c}' {
        seq!['\\', 'f']
    } else if c == '\n' {
        seq!['\\', 'n']
    } else if c == '\r' {
        seq!['\\', 'r']
    } else if c == '\t' {
        seq!['\\', 't']
    } else if (c as nat) < 0x20 {
        seq!['\\', 'u', '0', '0', digit_char(c as nat / 16), digit_char(c as nat % 16)]
    } else {
        seq![c]
    }
}

/// The characters of `s`, each as it stands inside a JSON string.
pub open spec fn escaped(s: Seq<char>) -> Seq<char>
    decreases s.len(),
{
    if s.len() == 0 {
        Seq::empty()
    } else {
        escape_char(s[0]) + escaped(s.drop_first())
    }
}

/// `s` as a JSON string: its escaped characters between quotation marks.
pub open spec fn quoted(s: Seq<char>) -> Seq<char> {
    seq!['"'] + escaped(s) + seq!['"']
}

/// Whether no character of `s` is a control character: such a text stays
/// on one line.
pub open spec fn is_plain(s: Seq<char>) -> bool {
    forall|i: int| 0 <= i < s.len() ==> (#[trigger] s[i]) as nat >= 0x20
}

/// Writes `s` as a JSON string with `serde_json::to_string`.
///
/// The contract claims two things of that function, neither proved here.
/// It succeeds on every string slice: it writes into memory, and a string
/// is no value whose serialisation can fail. And the text it gives is the
/// string between quotation marks with each character escaped as
/// [`escape_char`] says, which is the escape table of `serde_json`'s
/// serialiser with its compact formatter.
#[verifier::external_body]
fn json_string(s: &str) -> (r: Option<String>)
    ensures
        r is Some,
        r matches Some(text) ==> text@ == quoted(s@),
{
    serde_json::to_string(s).ok()
}

/// Appends `s` as a JSON string.
pub fn push_quoted(out: &mut String, s: &str)
    ensures
        final(out)@ == old(out)@ + quoted(s@),
{
    match json_string(s) {
        Some(text) => out.append(text.as_str()),
        None => unreached(),
    }
}

/// A JSON string holds no control character.
pub proof fn lemma_quoted_is_plain(s: Seq<char>)
    ensures
        is_plain(quoted(s)),
{
    lemma_escaped_is_plain(s);
}

/// The escaped characters of a text hold no control character.
proof fn lemma_escaped_is_plain(s: Seq<char>)
    ensures
        is_plain(escaped(s)),
    decreases s.len(),
{
    if s.len() > 0 {
        lemma_escaped_is_plain(s.drop_first());
    }
}

/// The decimal writing of a number holds no control character.
pub proof fn lemma_decimal_is_plain(n: nat)
    ensures
        is_plain(decimal(n)),
{
    lemma_number_of_decimal(n);
}

/// What is left of `s` behind `word`, if `s` begins with it.
pub open spec fn after_word(s: Seq<char>, word: Seq<char>) -> Option<Seq<char>> {
    if word.is_prefix_of(s) {
        Some(s.skip(word.len() as int))
    } else {
        None
    }
}

/// The character that stands at the front of the inside of a JSON string,
/// and the number of characters that write it. Of the escapes with `\u`
/// only those for the characters below `Ā` are read.
pub open spec fn unescape_one(s: Seq<char>) -> Option<(char, nat)> {
    if s.len() == 0 {
        None
    } else if s[0] != '\\' {
        Some((s[0], 1))
    } else if s.len() < 2 {
        None
    } else if s[1] == '"' {
        Some(('"', 2))
    } else if s[1] == '\\' {
        Some(('\\', 2))
    } else if s[1] == 'b' {
        Some(('\u{8}', 2))
    } else if s[1] == 'f' {
        Some(('\u{c}', 2))
    } else if s[1] == 'n' {
        Some(('\n', 2))
    } else if s[1] == 'r' {
        Some(('\r', 2))
    } else if s[1] == 't' {
        Some(('\t', 2))
    } else if s[1] == 'u' && s.len() >= 6 && s[2] == '0' && s[3] == '0' {
        match (digit_value(s[4], 16), digit_value(s[5], 16)) {
            (Some(high), Some(low)) => Some(((high * 16 + low) as char, 6)),
            _ => None,
        }
    } else {
        None
    }
}

/// Reads the inside of a JSON string up to the closing quotation mark:
/// `read` followed by the characters that `s` writes, and what is left
/// behind the mark.
pub open spec fn take_inside(s: Seq<char>, read: Seq<char>) -> Option<(Seq<char>, Seq<char>)>
    decreases s.len(),
{
    if s.len() > 0 && s[0] == '"' {
        Some((read, s.skip(1)))
    } else {
        match unescape_one(s) {
            Some((c, n)) => if 1 <= n <= s.len() {
                take_inside(s.skip(n as int), read.push(c))
            } else {
                None
            },
            None => None,
        }
    }
}

/// The JSON string at the front of `s`: its content, and what is left
/// behind it.
pub open spec fn take_string(s: Seq<char>) -> Option<(Seq<char>, Seq<char>)> {
    if s.len() > 0 && s[0] == '"' {
        take_inside(s.skip(1), Seq::empty())
    } else {
        None
    }
}

/// The number of decimal digits at the front of `s`.
pub open spec fn digit_run(s: Seq<char>) -> nat
    decreases s.len(),
{
    if s.len() > 0 && digit_value(s[0], 10) is Some {
        1 + digit_run(s.skip(1))
    } else {
        0
    }
}

/// The number of sixteen bits at the front of `s`, written in decimal
/// digits: its value, and what is left behind the digits.
pub open spec fn take_number(s: Seq<char>) -> Option<(u16, Seq<char>)> {
    let n = digit_run(s);
    if n == 0 {
        None
    } else {
        match number_of(s.take(n as int), 10) {
            Some(v) => if v <= 0xFFFF {
                Some((v as u16, s.skip(n as int)))
            } else {
                None
            },
            None => None,
        }
    }
}

/// A text behind which a word was written begins with the word.
pub proof fn lemma_after_word(word: Seq<char>, rest: Seq<char>)
    ensures
        after_word(word + rest, word) == Some(rest),
{
}

/// Reading the escape of a character gives the character.
proof fn lemma_unescape_one(c: char, rest: Seq<char>)
    ensures
        unescape_one(escape_char(c) + rest) == Some((c, escape_char(c).len())),
{
}

/// Reading the inside of a written string gives the string.
proof fn lemma_take_inside(t: Seq<char>, rest: Seq<char>, read: Seq<char>)
    ensures
        take_inside(escaped(t) + seq!['"'] + rest, read) == Some((read + t, rest)),
    decreases t.len(),
{
    if t.len() > 0 {
        let c = t[0];
        let s = escaped(t) + seq!['"'] + rest;
        let tail = escaped(t.drop_first()) + seq!['"'] + rest;
        lemma_unescape_one(c, tail);
        assert(s.skip(escape_char(c).len() as int) == tail);
        lemma_take_inside(t.drop_first(), rest, read.push(c));
    }
}

/// Reading a written string gives the string, and leaves what stood
/// behind it.
pub proof fn lemma_take_string(t: Seq<char>, rest: Seq<char>)
    ensures
        take_string(quoted(t) + rest) == Some((t, rest)),
        (quoted(t) + rest).len() > 0,
        (quoted(t) + rest)[0] == '"',
{
    let s = quoted(t) + rest;
    assert(s.skip(1) == escaped(t) + seq!['"'] + rest);
    lemma_take_inside(t, rest, Seq::empty());
}

/// Digits in front of what begins with no digit are the whole run of digits
/// at the front.
proof fn lemma_digit_run(digits: Seq<char>, rest: Seq<char>)
    requires
        forall|i: int| 0 <= i < digits.len() ==> '0' <= #[trigger] digits[i] <= '9',
        rest.len() == 0 || digit_value(rest[0], 10) is None,
    ensures
        digit_run(digits + rest) == digits.len(),
    decreases digits.len(),
{
    if digits.len() > 0 {
        assert((digits + rest).skip(1) == digits.skip(1) + rest);
        lemma_digit_run(digits.skip(1), rest);
    }
}

/// Reading a number written in decimal gives the number, and leaves what
/// stood behind it, where that does not begin with a digit.
pub proof fn lemma_take_number(n: u16, rest: Seq<char>)
    requires
        rest.len() == 0 || digit_value(rest[0], 10) is None,
    ensures
        take_number(decimal(n as nat) + rest) == Some((n, rest)),
{
    let d = decimal(n as nat);
    let s = d + rest;
    lemma_number_of_decimal(n as nat);
    lemma_digit_run(d, rest);
    assert(s.take(d.len() as int) == d);
}

/// Skips `word` at the place `pos` of `chars`.
pub fn read_word(chars: &Vec<char>, pos: usize, word: &str) -> (r: Option<usize>)
    requires
        pos <= chars.len(),
    ensures
        match r {
            Some(next) => pos <= next <= chars.len() && after_word(
                chars@.skip(pos as int),
                word@,
            ) == Some(chars@.skip(next as int)),
            None => after_word(chars@.skip(pos as int), word@) is None,
        },
{
    let letters = chars_of(word);
    let n = letters.len();
    if n > chars.len() - pos {
        return None;
    }
    let ghost s = chars@.skip(pos as int);
    let mut i: usize = 0;
    while i < n
        invariant
            i <= n,
            n == letters.len(),
            letters@ == word@,
            pos + n <= chars.len(),
            s == chars@.skip(pos as int),
            forall|j: int| 0 <= j < i ==> s[j] == letters@[j],
        decreases n - i,
    {
        if chars[pos + i] != letters[i] {
            return None;
        }
        i += 1;
    }
    Some(pos + n)
}

/// Reads one character of the inside of a JSON string at the place `pos`:
/// the character, and the number of characters that write it.
fn read_escape(chars: &Vec<char>, pos: usize) -> (r: Option<(char, usize)>)
    requires
        pos <= chars.len(),
    ensures
        match r {
            Some((c, n)) => 1 <= n <= chars.len() - pos && unescape_one(chars@.skip(pos as int))
                == Some((c, n as nat)),
            None => unescape_one(chars@.skip(pos as int)) is None,
        },
{
    let left = chars.len() - pos;
    if left == 0 {
        return None;
    }
    let first = chars[pos];
    if first != '\\' {
        return Some((first, 1));
    }
    if left < 2 {
        return None;
    }
    let second = chars[pos + 1];
    if second == '"' {
        Some(('"', 2))
    } else if second == '\\' {
        Some(('\\', 2))
    } else if second == 'b' {
        Some(('\u{8}', 2))
    } else if second == 'f' {
        Some(('\u{c}', 2))
    } else if second == 'n' {
        Some(('\n', 2))
    } else if second == 'r' {
        Some(('\r', 2))
    } else if second == 't' {
        Some(('\t', 2))
    } else if second == 'u' && left >= 6 {
        if chars[pos + 2] != '0' || chars[pos + 3] != '0' {
            return None;
        }
        match (digit_of(chars[pos + 4], 16), digit_of(chars[pos + 5], 16)) {
            (Some(high), Some(low)) => {
                let code: u8 = (high * 16 + low) as u8;
                Some((code as char, 6))
            },
            _ => None,
        }
    } else {
        None
    }
}

/// Reads the JSON string at the place `pos` of `chars`: its content, and
/// the place behind it.
pub fn read_string(chars: &Vec<char>, pos: usize) -> (r: Option<(String, usize)>)
    requires
        pos <= chars.len(),
    ensures
        match r {
            Some((text, next)) => pos <= next <= chars.len() && take_string(
                chars@.skip(pos as int),
            ) == Some((text@, chars@.skip(next as int))),
            None => take_string(chars@.skip(pos as int)) is None,
        },
{
    let ghost s = chars@.skip(pos as int);
    if pos == chars.len() || chars[pos] != '"' {
        return None;
    }
    assert(s.skip(1) == chars@.skip(pos + 1));
    let mut out = String::new();
    let mut i: usize = pos + 1;
    loop
        invariant
            pos < i <= chars.len(),
            s == chars@.skip(pos as int),
            take_string(s) == take_inside(chars@.skip(i as int), out@),
        decreases chars.len() - i,
    {
        let ghost here = chars@.skip(i as int);
        if i < chars.len() && chars[i] == '"' {
            return Some((out, i + 1));
        }
        match read_escape(chars, i) {
            None => {
                return None;
            },
            Some((c, n)) => {
                assert(here.skip(n as int) == chars@.skip(i + n));
                out.push(c);
                i += n;
            },
        }
    }
}

/// Reads the number at the place `pos` of `chars`: its value, and the
/// place behind its digits.
pub fn read_port(chars: &Vec<char>, pos: usize) -> (r: Option<(u16, usize)>)
    requires
        pos <= chars.len(),
    ensures
        match r {
            Some((n, next)) => pos <= next <= chars.len() && take_number(chars@.skip(pos as int))
                == Some((n, chars@.skip(next as int))),
            None => take_number(chars@.skip(pos as int)) is None,
        },
{
    let ghost s = chars@.skip(pos as int);
    let mut end: usize = pos;
    loop
        invariant
            pos <= end <= chars.len(),
            s == chars@.skip(pos as int),
            digit_run(s) == (end - pos) + digit_run(chars@.skip(end as int)),
        ensures
            digit_run(s) == end - pos,
        decreases chars.len() - end,
    {
        let ghost here = chars@.skip(end as int);
        if end == chars.len() {
            break;
        }
        match digit_of(chars[end], 10) {
            None => {
                break;
            },
            Some(_) => {
                assert(here.skip(1) == chars@.skip(end + 1));
                end += 1;
            },
        }
    }
    if end == pos {
        return None;
    }
    assert(s.take(end - pos) == chars@.subrange(pos as int, end as int));
    match read_number(chars, pos, end, 10, 0xFFFF) {
        Some(v) => Some((v as u16, end)),
        None => None,
    }
}

} // verus!
