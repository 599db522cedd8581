//! Regular expressions, through the `regex` crate.
//!
//! The engine is not verified here. Its answers have names, and the
//! functions that use them say what they do with every answer.

use crate::text::view_of;
use vstd::prelude::*;

verus! {

/// Whether the engine accepts `pattern` as a regular expression.
pub uninterp spec fn accepted(pattern: Seq<char>) -> bool;

/// What the engine says of a `pattern` that it refuses: the message of its
/// fault, as `Display` writes it.
pub uninterp spec fn rejection(pattern: Seq<char>) -> Seq<char>;

/// What group `group` holds in the leftmost match of `pattern` in `text`;
/// nothing where the pattern matches nowhere or the group took no part.
pub uninterp spec fn captured(pattern: Seq<char>, text: Seq<char>, group: nat) -> Option<Seq<char>>;

/// Compiles `pattern` with `Regex::new` and searches `text` with
/// `Regex::captures`, taking group `group` of the match with `Captures::get`;
/// a fault of the engine is handed on as its `Display` writes it. The
/// contract names the outcome: the engine refuses the pattern exactly where
/// `accepted` is false, what it then says is `rejection`, and what it finds
/// is `captured`.
#[verifier::external_body]
pub(crate) fn capture(pattern: &str, text: &str, group: usize) -> (r: Result<Option<String>, String>)
    ensures
        match r {
            Ok(found) => accepted(pattern@) && view_of(found) == captured(
                pattern@,
                text@,
                group as nat,
            ),
            Err(message) => !accepted(pattern@) && message@ == rejection(pattern@),
        },
{
    match regex::Regex::new(pattern) {
        Ok(re) => Ok(re.captures(text).and_then(|c| c.get(group)).map(|m| m.as_str().to_string())),
        Err(e) => Err(e.to_string()),
    }
}

} // verus!
