//! Rendering a wire message as JSON object text, matching how the
//! surrounding platform writes a string-keyed object.

use crate::wire::{MessageJson, MessageJsonV};
use vstd::prelude::*;
use vstd::string::StrSliceExecFns;

verus! {

/// Relies on `String::push`: appends exactly the one character.
#[verifier::external_body]
fn push_char(s: &mut String, c: char)
    ensures
        final(s)@ == old(s)@.push(c),
{
    s.push(c);
}

/// Appends the characters of `t`.
fn push_str_chars(s: &mut String, t: &str)
    ensures
        final(s)@ == old(s)@ + t@,
{
    let n = t.unicode_len();
    let mut i: usize = 0;
    while i < n
        invariant
            n == t@.len(),
            i <= n,
            s@ == old(s)@ + t@.take(i as int),
        decreases n - i,
    {
        push_char(s, t.get_char(i));
        i += 1;
        proof {
            assert(old(s)@ + t@.take(i as int) =~= (old(s)@ + t@.take(i - 1)).push(
                t@[i - 1],
            ));
        }
    }
    proof {
        assert(t@.take(n as int) =~= t@);
    }
}

/// The character of a decimal digit.
pub open spec fn dec_digit_char(d: int) -> char
    recommends
        0 <= d < 10,
{
    ((48 + d) as u8) as char
}

/// The character of a hexadecimal digit, lower case.
pub open spec fn hex_digit_char(d: int) -> char
    recommends
        0 <= d < 16,
{
    if d < 10 {
        ((48 + d) as u8) as char
    } else {
        ((87 + d) as u8) as char
    }
}

/// The decimal digits of a non-negative integer, most significant first.
pub open spec fn dec_digits_text(n: int) -> Seq<char>
    recommends
        n >= 0,
    decreases n,
{
    if n < 10 {
        seq![dec_digit_char(n)]
    } else {
        dec_digits_text(n / 10).push(dec_digit_char(n % 10))
    }
}

/// The decimal text of an integer, with a leading minus when negative.
pub open spec fn int_text(n: int) -> Seq<char> {
    if n < 0 {
        seq!['-'] + dec_digits_text(-n)
    } else {
        dec_digits_text(n)
    }
}

fn push_dec_u64(s: &mut String, v: u64)
    ensures
        final(s)@ == old(s)@ + dec_digits_text(v as int),
    decreases v,
{
    if v < 10 {
        push_char(s, (48 + v as u8) as char);
        proof {
            assert(old(s)@.push(dec_digit_char(v as int)) =~= old(s)@ + dec_digits_text(
                v as int,
            ));
        }
    } else {
        push_dec_u64(s, v / 10);
        push_char(s, (48 + (v % 10) as u8) as char);
        proof {
            assert((old(s)@ + dec_digits_text(v as int / 10)).push(
                dec_digit_char(v as int % 10),
            ) =~= old(s)@ + dec_digits_text(v as int));
        }
    }
}

fn push_dec_i32(s: &mut String, n: i32)
    ensures
        final(s)@ == old(s)@ + int_text(n as int),
{
    if n < 0 {
        push_char(s, '-');
        let mag = -(n as i64);
        push_dec_u64(s, mag as u64);
        proof {
            assert((old(s)@.push('-')) + dec_digits_text(mag as int) =~= old(s)@ + int_text(
                n as int,
            ));
        }
    } else {
        push_dec_u64(s, n as u64);
    }
}

/// What a character becomes inside a JSON string: the two-character escapes
/// for the quote, the backslash and the common control characters, a
/// `\u00..` escape for the other control characters, and the character
/// itself otherwise.
pub open spec fn escaped_char(c: char) -> Seq<char> {
    if c == '"' {
        seq!['\\', '"']
    } else if c == '\\' {
        seq!['\\', '\\']
    } else if c == '\u{8}' {
        seq!['\\', 'b']
    } else if c == '\t' {
        seq!['\\', 't']
    } else if c == '\n' {
        seq!['\\', 'n']
    } else if c == '\u{c}' {
        seq!['\\', 'f']
    } else if c == '\r' {
        seq!['\\', 'r']
    } else if (c as u32) < 32 {
        seq!['\\', 'u', '0', '0', hex_digit_char((c as u32 / 16) as int), hex_digit_char((
            c as u32 % 16
        ) as int)]
    } else {
        seq![c]
    }
}

/// A text with every character escaped for a JSON string.
pub open spec fn json_escaped(s: Seq<char>) -> Seq<char>
    decreases s.len(),
{
    if s.len() == 0 {
        Seq::empty()
    } else {
        json_escaped(s.drop_last()) + escaped_char(s.last())
    }
}

/// The hexadecimal digit character of a value below 16.
fn hex_char(d: u8) -> (c: char)
    requires
        d < 16,
    ensures
        c == hex_digit_char(d as int),
{
    if d < 10 {
        (48 + d) as char
    } else {
        (87 + d) as char
    }
}

fn push_escaped(s: &mut String, t: &str)
    ensures
        final(s)@ == old(s)@ + json_escaped(t@),
{
    let n = t.unicode_len();
    let mut i: usize = 0;
    while i < n
        invariant
            n == t@.len(),
            i <= n,
            s@ == old(s)@ + json_escaped(t@.take(i as int)),
        decreases n - i,
    {
        let ghost pre = s@;
        let c = t.get_char(i);
        let cv = c as u32;
        if c == '"' {
            push_char(s, '\\');
            push_char(s, '"');
        } else if c == '\\' {
            push_char(s, '\\');
            push_char(s, '\\');
        } else if cv == 8 {
            push_char(s, '\\');
            push_char(s, 'b');
        } else if cv == 9 {
            push_char(s, '\\');
            push_char(s, 't');
        } else if cv == 10 {
            push_char(s, '\\');
            push_char(s, 'n');
        } else if cv == 12 {
            push_char(s, '\\');
            push_char(s, 'f');
        } else if cv == 13 {
            push_char(s, '\\');
            push_char(s, 'r');
        } else if cv < 32 {
            push_char(s, '\\');
            push_char(s, 'u');
            push_char(s, '0');
            push_char(s, '0');
            push_char(s, hex_char((cv / 16) as u8));
            push_char(s, hex_char((cv % 16) as u8));
        } else {
            push_char(s, c);
        }
        proof {
            assert(s@ =~= pre + escaped_char(c));
        }
        i += 1;
        proof {
            assert(t@.take(i as int).drop_last() =~= t@.take(i - 1));
            assert(t@.take(i as int).last() == t@[i - 1]);
            assert((old(s)@ + json_escaped(t@.take(i - 1))) + escaped_char(t@[i - 1]) =~= old(
                s,
            )@ + json_escaped(t@.take(i as int)));
        }
    }
    proof {
        assert(t@.take(n as int) =~= t@);
    }
}

/// A text as a JSON string: quoted and escaped.
pub open spec fn quoted(s: Seq<char>) -> Seq<char> {
    seq!['"'] + json_escaped(s) + seq!['"']
}

fn push_quoted(s: &mut String, t: &str)
    ensures
        final(s)@ == old(s)@ + quoted(t@),
{
    push_char(s, '"');
    proof {
        assert(s@ =~= old(s)@ + seq!['"']);
    }
    push_escaped(s, t);
    push_char(s, '"');
    proof {
        assert(s@ =~= old(s)@ + quoted(t@));
    }
}

/// The JSON text of a wire message, as the surrounding platform writes a
/// string-keyed object: members in alphabetical key order.
pub open spec fn message_json_text(m: MessageJsonV) -> Seq<char> {
    "{\"content\":"@ + quoted(m.content) + ",\"id\":"@ + int_text(m.id) + ",\"pub_date\":"@
        + quoted(m.pub_date) + ",\"title\":"@ + quoted(m.title) + ",\"user\":"@ + int_text(m.user)
        + "}"@
}

impl MessageJson {
    /// Renders the message as one JSON object text.
    pub fn to_json_string(&self) -> (r: String)
        ensures
            r@ == message_json_text(self@),
    {
        let mut out = String::new();
        push_str_chars(&mut out, "{\"content\":");
        push_quoted(&mut out, self.content.as_str());
        push_str_chars(&mut out, ",\"id\":");
        push_dec_i32(&mut out, self.id);
        push_str_chars(&mut out, ",\"pub_date\":");
        push_quoted(&mut out, self.pub_date.as_str());
        push_str_chars(&mut out, ",\"title\":");
        push_quoted(&mut out, self.title.as_str());
        push_str_chars(&mut out, ",\"user\":");
        push_dec_i32(&mut out, self.user);
        push_str_chars(&mut out, "}");
        proof {
            assert(out@ =~= message_json_text(self@));
        }
        out
    }
}

} // verus!
