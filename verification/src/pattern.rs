//! Regular expressions, compiled once and kept with their source text.
use vstd::prelude::*;

verus! {

#[verifier::external_type_specification]
#[verifier::external_body]
pub struct ExRegex(regex::Regex);

/// Whether `regex::Regex::new` accepts `pattern`.
pub uninterp spec fn spec_regex_compiles(pattern: Seq<char>) -> bool;

/// What `regex::Regex::is_match` answers for the expression compiled from
/// `pattern` and the text `text`.
pub uninterp spec fn spec_regex_is_match(pattern: Seq<char>, text: Seq<char>) -> bool;

/// Calls `regex::Regex::new`; it claims only that whether it succeeds is
/// named by `spec_regex_compiles` of the pattern. The crate's error is left out.
#[verifier::external_body]
fn compile_regex(pattern: &str) -> (res: Option<regex::Regex>)
    ensures
        res is Some <==> spec_regex_compiles(pattern@),
{
    regex::Regex::new(pattern).ok()
}

/// A compiled regular expression together with the text it was compiled from.
pub struct Matcher {
    source: String,
    regex: regex::Regex,
}

/// Calls `regex::Regex::is_match` on the expression that `matcher` holds; it
/// claims the answer is `spec_regex_is_match` of the text the expression was
/// compiled from (only `Matcher::new` builds a `Matcher`) and of `text`.
#[verifier::external_body]
fn regex_is_match(matcher: &Matcher, text: &str) -> (found: bool)
    ensures
        found == spec_regex_is_match(matcher.pattern(), text@),
{
    matcher.regex.is_match(text)
}

impl Matcher {
    /// The text the expression was compiled from.
    pub closed spec fn pattern(&self) -> Seq<char> {
        self.source@
    }

    /// Compiles `pattern`; `None` where it is not a valid expression.
    pub fn new(pattern: &str) -> (res: Option<Matcher>)
        ensures
            res is Some <==> spec_regex_compiles(pattern@),
            res matches Some(m) ==> m.pattern() == pattern@,
    {
        match compile_regex(pattern) {
            Some(regex) => Some(Matcher { source: pattern.to_owned(), regex: regex }),
            None => None,
        }
    }

    /// Whether the expression matches somewhere in `text`.
    pub fn is_match(&self, text: &str) -> (found: bool)
        ensures
            found == spec_regex_is_match(self.pattern(), text@),
    {
        regex_is_match(self, text)
    }
}

} // verus!
