//! Regular expressions: every call into `regex` stands behind one of the
//! trusted functions of this module, and what it returns is named by an
//! uninterpreted spec function of its arguments.

use vstd::prelude::*;

verus! {

/// Whether `regex::Regex::new` accepts `pattern`.
pub uninterp spec fn regex_compiles(pattern: Seq<char>) -> bool;

/// The capture groups (group 0 first, `None` for a group that took no
/// part) of the first match of `pattern` in `text`
/// (`Regex::captures`); `None` when there is no match.
pub uninterp spec fn regex_capture_groups(pattern: Seq<char>, text: Seq<char>) -> Option<Seq<Option<Seq<char>>>>;

/// The characters that have a meaning in a regex (`regex_syntax::is_meta_character`).
pub open spec fn regex_meta(c: char) -> bool {
    c == '\\' || c == '.' || c == '+' || c == '*' || c == '?' || c == '(' || c == ')' || c == '|' || c == '['
        || c == ']' || c == '{' || c == '}' || c == '^' || c == '$' || c == '#' || c == '&' || c == '-' || c == '~'
}

/// `s` with a backslash put before every regex meta character
/// (`regex::escape`).
pub open spec fn regex_escaped(s: Seq<char>) -> Seq<char>
    decreases s.len(),
{
    if s.len() == 0 {
        Seq::empty()
    } else {
        let c = s.last();
        regex_escaped(s.drop_last()) + if regex_meta(c) { seq!['\\', c] } else { seq![c] }
    }
}

/// The views of optional strings.
pub open spec fn opt_strs_view(v: Seq<Option<String>>) -> Seq<Option<Seq<char>>> {
    v.map_values(|o: Option<String>| crate::text::opt_view(o))
}

/// Escape regex meta characters.
///
/// Trusted: calls `regex::escape`, which copies each character of `s`
/// and puts a backslash before each meta character.
#[verifier::external_body]
pub(crate) fn regex_escape(s: &str) -> (r: String)
    ensures
        r@ == regex_escaped(s@),
{
    regex::escape(s)
}

/// The capture groups of the first match of `pattern` in `text`; the
/// outer `None` when the pattern does not compile.
///
/// Trusted: calls `regex::Regex::new(pattern)` and, when it succeeds,
/// `Regex::captures(text)`, turning each group into an owned string.
#[verifier::external_body]
pub(crate) fn regex_captures(pattern: &str, text: &str) -> (r: Option<Option<Vec<Option<String>>>>)
    ensures
        r is Some <==> regex_compiles(pattern@),
        match r {
            Some(Some(g)) => regex_capture_groups(pattern@, text@) == Some(opt_strs_view(g@)),
            Some(None) => regex_capture_groups(pattern@, text@) is None,
            None => true,
        },
{
    let re = regex::Regex::new(pattern).ok()?;
    Some(re.captures(text).map(|c| c.iter().map(|m| m.map(|m| m.as_str().to_string())).collect()))
}


/// The capture groups (group 0 first, `None` for a group that took no
/// part) of each successive non-overlapping match of `pattern` in `text`
/// (`Regex::captures_iter`).
pub uninterp spec fn regex_all_capture_groups(pattern: Seq<char>, text: Seq<char>) -> Seq<Seq<Option<Seq<char>>>>;

/// The capture groups of the matches.
pub open spec fn groups_view(v: Seq<Vec<Option<String>>>) -> Seq<Seq<Option<Seq<char>>>> {
    v.map_values(|g: Vec<Option<String>>| opt_strs_view(g@))
}

/// The capture groups of every match of `pattern` in `text`; `None` when
/// the pattern does not compile.
///
/// Trusted: calls `regex::Regex::new(pattern)` and, when it succeeds,
/// `Regex::captures_iter(text)`, turning each group into an owned string.
#[verifier::external_body]
pub(crate) fn regex_captures_all(pattern: &str, text: &str) -> (r: Option<Vec<Vec<Option<String>>>>)
    ensures
        r is Some <==> regex_compiles(pattern@),
        match r {
            Some(v) => regex_all_capture_groups(pattern@, text@) == groups_view(v@),
            None => true,
        },
{
    let re = regex::Regex::new(pattern).ok()?;
    Some(re.captures_iter(text).map(|c| c.iter().map(|m| m.map(|m| m.as_str().to_string())).collect()).collect())
}

} // verus!
