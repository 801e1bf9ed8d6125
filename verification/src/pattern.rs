//! Regular expressions and shell-style word splitting. Both are the work of
//! outside crates; this module names their results and says what is taken on
//! trust about them.

use vstd::prelude::*;
use vstd::string::StringExecFns;
use regex::Regex;

verus! {

/// Whether `Regex::new` of the regex crate accepts `pattern`.
pub uninterp spec fn regex_compiles(pattern: Seq<char>) -> bool;

/// Whether the regular expression compiled from `pattern` finds a match
/// anywhere in `haystack`: the answer of `Regex::is_match`.
pub uninterp spec fn regex_is_match(pattern: Seq<char>, haystack: Seq<char>) -> bool;

/// The words into which `shlex::split` cuts `line`, quotes and escapes
/// resolved as a POSIX shell would; `None` where the line is erroneous (an
/// unterminated quote, a trailing backslash).
pub uninterp spec fn shlex_split(line: Seq<char>) -> Option<Seq<Seq<char>>>;

/// Calls `Regex::new` and reports whether it returned a regular expression.
/// Trusted: the answer depends on the pattern alone.
#[verifier::external_body]
pub(crate) fn compiles(pattern: &str) -> (ok: bool)
    ensures
        ok == regex_compiles(pattern@),
{
    Regex::new(pattern).is_ok()
}

/// Compiles `pattern` with `Regex::new` and asks `Regex::is_match` whether it
/// matches somewhere in `haystack`. Trusted: `None` exactly where the pattern
/// does not compile, otherwise the answer of `is_match`, which depends on the
/// pattern and the haystack alone.
#[verifier::external_body]
pub(crate) fn search(pattern: &str, haystack: &str) -> (found: Option<bool>)
    ensures
        found == (if regex_compiles(pattern@) {
            Some(regex_is_match(pattern@, haystack@))
        } else {
            None
        }),
{
    match Regex::new(pattern) {
        Ok(re) => Some(re.is_match(haystack)),
        Err(_) => None,
    }
}

/// Calls `shlex::split`. Trusted: the words depend on the line alone.
#[verifier::external_body]
pub(crate) fn shell_words(line: &str) -> (words: Option<Vec<String>>)
    ensures
        match words {
            Some(w) => shlex_split(line@) == Some(crate::text::views(w@)),
            None => shlex_split(line@) is None,
        },
{
    shlex::split(line)
}

/// `pattern` between an anchor at the start of the text and one at its end, so
/// that a match of the result is a match of the whole text.
pub open spec fn anchored(pattern: Seq<char>) -> Seq<char> {
    "\\A(?:"@ + pattern + ")\\z"@
}

/// A pattern that can be used to check an argument: it compiles as written
/// and between anchors.
pub open spec fn usable(pattern: Seq<char>) -> bool {
    regex_compiles(pattern) && regex_compiles(anchored(pattern))
}

/// Whether `pattern` matches the whole of `text`.
pub open spec fn full_match(pattern: Seq<char>, text: Seq<char>) -> bool {
    regex_is_match(anchored(pattern), text)
}

fn anchor(pattern: &str) -> (out: String)
    ensures
        out@ == anchored(pattern@),
{
    let mut out = String::new();
    out.append("\\A(?:");
    out.append(pattern);
    out.append(")\\z");
    out
}

/// Whether `pattern` can be used to check arguments.
pub fn is_usable(pattern: &str) -> (ok: bool)
    ensures
        ok == usable(pattern@),
{
    let whole = anchor(pattern);
    compiles(pattern) && compiles(whole.as_str())
}

/// Whether `pattern` matches the whole of `text`.
pub fn matches_fully(pattern: &str, text: &str) -> (ok: bool)
    requires
        usable(pattern@),
    ensures
        ok == full_match(pattern@, text@),
{
    let whole = anchor(pattern);
    match search(whole.as_str(), text) {
        Some(found) => found,
        None => false,
    }
}

} // verus!
