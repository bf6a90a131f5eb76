//! Regular expressions, through the regex crate.

use vstd::prelude::*;
use crate::text::contains_sub;

verus! {

/// The characters `regex::escape` escapes: those with a meaning in a regex.
pub open spec fn is_meta_character(c: char) -> bool {
    c == '\\' || c == '.' || c == '+' || c == '*' || c == '?' || c == '(' || c == ')' || c == '|'
        || c == '[' || c == ']' || c == '{' || c == '}' || c == '^' || c == '$' || c == '#' || c == '&'
        || c == '-' || c == '~'
}

/// The text `regex::escape` gives for `text`: each character in turn, a
/// metacharacter preceded by a backslash, so that the result matches `text`
/// literally.
pub open spec fn regex_escaped(text: Seq<char>) -> Seq<char>
    decreases text.len(),
{
    if text.len() == 0 {
        seq![]
    } else {
        regex_escaped(text.drop_last()) + if is_meta_character(text.last()) {
            seq!['\\', text.last()]
        } else {
            seq![text.last()]
        }
    }
}

/// Whether `regex::Regex::new` accepts `pattern` (it refuses invalid syntax
/// and programs over the crate's size limit).
pub uninterp spec fn regex_compiles(pattern: Seq<char>) -> bool;

/// The text of the leftmost-first match of `pattern` in `text`, as
/// `Regex::find` reports it, or None.
pub uninterp spec fn regex_leftmost(pattern: Seq<char>, text: Seq<char>) -> Option<Seq<char>>;

/// Calls `regex::escape`, which appends each character of `text` to the
/// result, after a backslash when it is a metacharacter.
#[verifier::external_body]
pub fn escape_literal(text: &str) -> (r: String)
    ensures
        r@ == regex_escaped(text@),
{
    regex::escape(text)
}

/// Calls `regex::Regex::new` and reports whether it compiled.
#[verifier::external_body]
pub fn pattern_compiles(pattern: &str) -> (r: bool)
    ensures
        r == regex_compiles(pattern@),
{
    regex::Regex::new(pattern).is_ok()
}

/// Compiles `pattern` with `regex::Regex::new` and calls `is_match` on
/// `text`; as the regex documentation states, it answers whether `find`
/// reports a match. The contract also claims what `regex::escape` and the
/// `(?i)` flag are documented to give: a case-insensitive pattern for an
/// escaped literal matches every text that holds the literal verbatim.
#[verifier::external_body]
pub fn pattern_matches(pattern: &str, text: &str) -> (r: bool)
    requires
        regex_compiles(pattern@),
    ensures
        r == (regex_leftmost(pattern@, text@) is Some),
        forall|p: Seq<char>| #[trigger] ci_literal(p) == pattern@ && contains_sub(text@, p) ==> r,
{
    match regex::Regex::new(pattern) {
        Ok(re) => re.is_match(text),
        Err(_) => false,
    }
}

/// Compiles `pattern` with `regex::Regex::new` and calls `find` on `text`,
/// giving the matched text. The contract claims that the match is a function
/// of the pattern and the text.
#[verifier::external_body]
pub fn pattern_find(pattern: &str, text: &str) -> (r: Option<String>)
    requires
        regex_compiles(pattern@),
    ensures
        r matches Some(m) ==> regex_leftmost(pattern@, text@) == Some(m@),
        r is None ==> regex_leftmost(pattern@, text@) is None,
{
    match regex::Regex::new(pattern) {
        Ok(re) => re.find(text).map(|m| m.as_str().to_string()),
        Err(_) => None,
    }
}

/// The case-insensitive pattern for the literal text `p`: `(?i)` followed by
/// its escaped form.
pub open spec fn ci_literal(p: Seq<char>) -> Seq<char> {
    "(?i)"@ + regex_escaped(p)
}

/// Builds the case-insensitive pattern for the literal text `p`.
pub fn case_insensitive_literal(p: &str) -> (r: String)
    ensures
        r@ == ci_literal(p@),
{
    let escaped = escape_literal(p);
    let mut r = String::from_str("(?i)");
    r.append(escaped.as_str());
    proof {
        reveal_strlit("(?i)");
    }
    r
}

} // verus!
