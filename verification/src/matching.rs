//! Pattern matching for collection rules.
//!
//! Rule patterns are forgiving: an entry is tried as a regular expression
//! first; one that does not compile falls back to a case-insensitive literal
//! comparison. The regular-expression verdict itself comes from the regex
//! engine and is named, not restated, here.

use vstd::prelude::*;

verus! {

/// Whether `pattern` compiles as a regular expression and, if so, whether it
/// matches `text`: `None` exactly when the pattern does not compile. The
/// verdict depends on the pattern and the text alone.
pub uninterp spec fn re_verdict(pattern: Seq<char>, text: Seq<char>) -> Option<bool>;

/// Relies on regex::Regex::new and regex::Regex::is_match: compiles the
/// pattern and tests the text, `None` when the pattern is no valid regular
/// expression. Both are pure functions of their string arguments, so the
/// composite verdict is named by [`re_verdict`].
#[verifier::external_body]
pub(crate) fn regex_verdict(pattern: &str, text: &str) -> (r: Option<bool>)
    ensures
        r == re_verdict(pattern@, text@),
{
    match regex::Regex::new(pattern) {
        Ok(re) => Some(re.is_match(text)),
        Err(_) => None,
    }
}

/// An ASCII capital letter mapped to its lowercase form; any other character
/// unchanged.
pub open spec fn lower_char(c: char) -> char {
    if 'A' <= c && c <= 'Z' {
        (((c as u32) + 32) as char)
    } else {
        c
    }
}

/// `s` lowercased character by character, ASCII letters only.
pub open spec fn ascii_lower(s: Seq<char>) -> Seq<char> {
    Seq::new(s.len(), |i: int| lower_char(s[i]))
}

/// Relies on str::to_ascii_lowercase: maps the ASCII letters `A`-`Z` to
/// their lowercase forms and leaves every other character unchanged.
#[verifier::external_body]
pub(crate) fn to_ascii_lower(s: &str) -> (r: String)
    ensures
        r@ == ascii_lower(s@),
{
    s.to_ascii_lowercase()
}

/// How one name pattern is held against a process name: as a regular
/// expression against the lowercased name when it compiles, else as a
/// case-insensitive literal.
pub open spec fn name_pattern_matches(pattern: Seq<char>, process_name: Seq<char>) -> bool {
    match re_verdict(pattern, ascii_lower(process_name)) {
        Some(b) => b,
        None => ascii_lower(process_name) == ascii_lower(pattern),
    }
}

/// Hold one name pattern against a process name.
pub fn match_name_pattern(pattern: &str, process_name: &str) -> (r: bool)
    ensures
        r == name_pattern_matches(pattern@, process_name@),
{
    let lowered = to_ascii_lower(process_name);
    match regex_verdict(pattern, lowered.as_str()) {
        Some(b) => b,
        None => {
            let lowered_pattern = to_ascii_lower(pattern);
            lowered == lowered_pattern
        },
    }
}

} // verus!
