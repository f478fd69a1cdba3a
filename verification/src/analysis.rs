//! The kinds of document an analysis may be told to expect.
use vstd::prelude::*;

use vstd::utf8::is_ascii_chars;

use crate::text::str_eq;

verus! {

/// A kind of document.
#[derive(Clone, Copy, Debug, PartialEq, Eq, Structural)]
pub enum Type {
    Rib,
    Twoddoc,
}

/// What a client may tell the analysis about the document it sends.
#[derive(Clone, Copy, Debug, PartialEq, Eq, Structural)]
pub enum Hint {
    Type(Type),
}

/// What `str::to_lowercase` returns for a text: its Unicode lower case.
pub uninterp spec fn spec_to_lowercase(s: Seq<char>) -> Seq<char>;

/// The lower case of an ASCII character: `A` to `Z` become `a` to `z`, and
/// every other character stays as it is.
pub open spec fn ascii_lower_char(c: char) -> char {
    if 'A' <= c && c <= 'Z' {
        ((c as u32) + 32) as char
    } else {
        c
    }
}

/// The lower case of a text, letter by letter, as ASCII defines it.
pub open spec fn ascii_lowercase(s: Seq<char>) -> Seq<char> {
    s.map_values(|c: char| ascii_lower_char(c))
}

/// Calls `str::to_lowercase`; the result is named by `spec_to_lowercase` of
/// the text. The one fact claimed of it: on an ASCII text, Unicode lower case
/// is ASCII lower case, character for character. For other texts no more is said.
#[verifier::external_body]
fn to_lowercase(s: &str) -> (res: String)
    ensures
        res@ == spec_to_lowercase(s@),
        is_ascii_chars(s@) ==> res@ == ascii_lowercase(s@),
{
    s.to_lowercase()
}

/// The hint that a lower-case hint name stands for: `rib` and `2ddoc` name the
/// two document types, and any other name stands for none.
pub open spec fn hint_named(name: Seq<char>) -> Option<Hint> {
    if name == "rib"@ {
        Some(Hint::Type(Type::Rib))
    } else if name == "2ddoc"@ {
        Some(Hint::Type(Type::Twoddoc))
    } else {
        None
    }
}

/// The hint that a lower-case hint name stands for.
pub fn hint_from_lowercase(name: &str) -> (hint: Option<Hint>)
    ensures
        hint == hint_named(name@),
{
    if str_eq(name, "rib") {
        Some(Hint::Type(Type::Rib))
    } else if str_eq(name, "2ddoc") {
        Some(Hint::Type(Type::Twoddoc))
    } else {
        None
    }
}

/// The hint that a client's hint text stands for, read without regard to
/// case; for an ASCII text, whatever the case of its letters.
pub fn parse_hint(text: &str) -> (hint: Option<Hint>)
    ensures
        hint == hint_named(spec_to_lowercase(text@)),
        is_ascii_chars(text@) ==> hint == hint_named(ascii_lowercase(text@)),
{
    let lower = to_lowercase(text);
    hint_from_lowercase(lower.as_str())
}

} // verus!
