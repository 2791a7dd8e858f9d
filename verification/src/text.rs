//! Truncation of display strings: the redacted view shortens long values to a
//! bounded number of characters and marks the cut with an ellipsis.

use vstd::prelude::*;
use vstd::string::*;

verus! {

/// The three-character marker appended in place of the removed tail.
pub open spec fn ellipsis() -> Seq<char> {
    seq!['.', '.', '.']
}

/// What truncation to `max` characters yields: a string of at most `max`
/// characters passes through unchanged; a longer one keeps its first
/// `max - 3` characters and gains the three-character marker, so the result
/// is again exactly `max` characters long.
pub open spec fn spec_truncate(s: Seq<char>, max: int) -> Seq<char> {
    if s.len() <= max {
        s
    } else {
        s.subrange(0, max - 3) + ellipsis()
    }
}

/// Relies on alloc's `String::push`: appends the given character to the end
/// of the string.
#[verifier::external_body]
pub(crate) fn string_push(s: &mut String, c: char)
    ensures
        final(s)@ == old(s)@.push(c),
{
    s.push(c);
}

/// Shorten `s` to at most `max` characters, replacing the removed tail with
/// a three-character ellipsis marker.
pub fn truncate(s: &str, max: usize) -> (r: String)
    requires
        3 <= max,
    ensures
        r@ == spec_truncate(s@, max as int),
{
    let n = s.unicode_len();
    if n > max {
        let head = s.substring_char(0, max - 3);
        let mut out = head.to_owned();
        out.append("...");
        proof {
            reveal_strlit("...");
            assert("..."@ =~= ellipsis());
            assert(out@ =~= spec_truncate(s@, max as int));
        }
        out
    } else {
        s.to_owned()
    }
}

} // verus!
