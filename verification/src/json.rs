//! Building blocks for the JSON text the library produces: string escaping,
//! quoting, decimal rendering of integers, and comma-joined lists. Each
//! building block is an executable function proved to emit exactly the
//! character sequence its spec function describes.

use vstd::prelude::*;
use vstd::string::*;
use crate::text::string_push;

verus! {

/// The hexadecimal digit character for a value below sixteen.
pub open spec fn hex_digit(d: int) -> char {
    if d == 0 {
        '0'
    } else if d == 1 {
        '1'
    } else if d == 2 {
        '2'
    } else if d == 3 {
        '3'
    } else if d == 4 {
        '4'
    } else if d == 5 {
        '5'
    } else if d == 6 {
        '6'
    } else if d == 7 {
        '7'
    } else if d == 8 {
        '8'
    } else if d == 9 {
        '9'
    } else if d == 10 {
        'a'
    } else if d == 11 {
        'b'
    } else if d == 12 {
        'c'
    } else if d == 13 {
        'd'
    } else if d == 14 {
        'e'
    } else {
        'f'
    }
}

pub fn hex_char(d: u8) -> (c: char)
    requires
        d < 16,
    ensures
        c == hex_digit(d as int),
{
    if d == 0 {
        '0'
    } else if d == 1 {
        '1'
    } else if d == 2 {
        '2'
    } else if d == 3 {
        '3'
    } else if d == 4 {
        '4'
    } else if d == 5 {
        '5'
    } else if d == 6 {
        '6'
    } else if d == 7 {
        '7'
    } else if d == 8 {
        '8'
    } else if d == 9 {
        '9'
    } else if d == 10 {
        'a'
    } else if d == 11 {
        'b'
    } else if d == 12 {
        'c'
    } else if d == 13 {
        'd'
    } else if d == 14 {
        'e'
    } else {
        'f'
    }
}

/// How one character appears inside a JSON string literal: quotes and
/// backslashes gain a backslash, the common control characters use their
/// short escapes, other control characters use the `\u00XX` form, and
/// everything else stands as itself.
pub open spec fn spec_escape_char(c: char) -> Seq<char> {
    if c == '"' {
        seq!['\\', '"']
    } else if c == '\\' {
        seq!['\\', '\\']
    } else if c == '\n' {
        seq!['\\', 'n']
    } else if c == '\r' {
        seq!['\\', 'r']
    } else if c == '\t' {
        seq!['\\', 't']
    } else if (c as int) < 32 {
        seq!['\\', 'u', '0', '0', hex_digit(c as int / 16), hex_digit(c as int % 16)]
    } else {
        seq![c]
    }
}

/// A whole string escaped character by character.
pub open spec fn spec_escape(s: Seq<char>) -> Seq<char>
    decreases s.len(),
{
    if s.len() == 0 {
        seq![]
    } else {
        spec_escape_char(s.first()) + spec_escape(s.drop_first())
    }
}

/// A JSON string literal: the escaped text between two quote characters.
pub open spec fn spec_quoted(s: Seq<char>) -> Seq<char> {
    seq!['"'] + spec_escape(s) + seq!['"']
}

proof fn lemma_escape_skip(s: Seq<char>, i: int)
    requires
        0 <= i < s.len(),
    ensures
        spec_escape(s.skip(i)) == spec_escape_char(s[i]) + spec_escape(s.skip(i + 1)),
{
    let t = s.skip(i);
    assert(t.first() == s[i]);
    assert(t.drop_first() =~= s.skip(i + 1));
}

fn append_escaped_char(out: &mut String, c: char)
    ensures
        final(out)@ == old(out)@ + spec_escape_char(c),
{
    if c == '"' {
        string_push(out, '\\');
        string_push(out, '"');
    } else if c == '\\' {
        string_push(out, '\\');
        string_push(out, '\\');
    } else if c == '\n' {
        string_push(out, '\\');
        string_push(out, 'n');
    } else if c == '\r' {
        string_push(out, '\\');
        string_push(out, 'r');
    } else if c == '\t' {
        string_push(out, '\\');
        string_push(out, 't');
    } else if (c as u32) < 32 {
        let n: u32 = c as u32;
        string_push(out, '\\');
        string_push(out, 'u');
        string_push(out, '0');
        string_push(out, '0');
        string_push(out, hex_char((n / 16) as u8));
        string_push(out, hex_char((n % 16) as u8));
    } else {
        string_push(out, c);
    }
    assert(final(out)@ =~= old(out)@ + spec_escape_char(c));
}

fn append_escaped(out: &mut String, s: &str)
    ensures
        final(out)@ == old(out)@ + spec_escape(s@),
{
    let n = s.unicode_len();
    assert(s@.skip(0) == s@);
    for i in 0..n
        invariant
            n == s@.len(),
            out@ + spec_escape(s@.skip(i as int)) =~= old(out)@ + spec_escape(s@),
    {
        let c = s.get_char(i);
        proof {
            lemma_escape_skip(s@, i as int);
        }
        append_escaped_char(out, c);
    }
    assert(spec_escape(s@.skip(n as int)) =~= Seq::<char>::empty());
    assert(final(out)@ =~= old(out)@ + spec_escape(s@));
}

/// Append a JSON string literal holding `s`.
pub fn append_quoted(out: &mut String, s: &str)
    ensures
        final(out)@ == old(out)@ + spec_quoted(s@),
{
    string_push(out, '"');
    append_escaped(out, s);
    string_push(out, '"');
    assert(final(out)@ =~= old(out)@ + spec_quoted(s@));
}

/// The decimal rendering of a non-negative integer, most significant digit
/// first, with no leading zeros except for zero itself.
pub open spec fn spec_dec(n: int) -> Seq<char>
    decreases n,
{
    if n <= 9 {
        seq![hex_digit(n)]
    } else {
        spec_dec(n / 10) + seq![hex_digit(n % 10)]
    }
}

/// Append the decimal rendering of `n`.
pub fn append_dec(out: &mut String, n: u64)
    ensures
        final(out)@ == old(out)@ + spec_dec(n as int),
    decreases n,
{
    if n <= 9 {
        string_push(out, hex_char(n as u8));
        assert(final(out)@ =~= old(out)@ + spec_dec(n as int));
    } else {
        append_dec(out, n / 10);
        string_push(out, hex_char((n % 10) as u8));
        assert(final(out)@ =~= old(out)@ + spec_dec(n as int));
    }
}

/// The tail of a comma-joined list: a comma before each element.
pub open spec fn spec_join_rest(elems: Seq<Seq<char>>) -> Seq<char>
    decreases elems.len(),
{
    if elems.len() == 0 {
        seq![]
    } else {
        seq![','] + elems.first() + spec_join_rest(elems.drop_first())
    }
}

/// A comma-joined list of already-rendered elements.
pub open spec fn spec_join(elems: Seq<Seq<char>>) -> Seq<char> {
    if elems.len() == 0 {
        seq![]
    } else {
        elems.first() + spec_join_rest(elems.drop_first())
    }
}

pub proof fn lemma_join_rest_skip(elems: Seq<Seq<char>>, i: int)
    requires
        0 <= i < elems.len(),
    ensures
        spec_join_rest(elems.skip(i)) == seq![','] + elems[i] + spec_join_rest(
            elems.skip(i + 1),
        ),
{
    let t = elems.skip(i);
    assert(t.first() == elems[i]);
    assert(t.drop_first() =~= elems.skip(i + 1));
}

pub proof fn lemma_join_first(elems: Seq<Seq<char>>)
    requires
        elems.len() > 0,
    ensures
        spec_join(elems) == elems[0] + spec_join_rest(elems.skip(1)),
{
    assert(elems.first() == elems[0]);
    assert(elems.drop_first() =~= elems.skip(1));
}

} // verus!
