//! Reading a yes/no answer: a line is affirmative when, with surrounding
//! whitespace trimmed and letters lowercased, it is exactly `y`.

use vstd::prelude::*;

verus! {

/// `char::is_whitespace`: the characters of Unicode's `White_Space` property.
pub open spec fn is_white(c: char) -> bool {
    ('\u{9}' <= c && c <= '\u{D}') || c == ' ' || c == '\u{85}' || c == '\u{A0}'
        || c == '\u{1680}' || ('\u{2000}' <= c && c <= '\u{200A}') || c == '\u{2028}'
        || c == '\u{2029}' || c == '\u{202F}' || c == '\u{205F}' || c == '\u{3000}'
}

/// The text without its leading whitespace.
pub open spec fn trim_start_spec(s: Seq<char>) -> Seq<char>
    decreases s.len(),
{
    if s.len() > 0 && is_white(s[0]) {
        trim_start_spec(s.drop_first())
    } else {
        s
    }
}

/// The text without its trailing whitespace.
pub open spec fn trim_end_spec(s: Seq<char>) -> Seq<char>
    decreases s.len(),
{
    if s.len() > 0 && is_white(s.last()) {
        trim_end_spec(s.drop_last())
    } else {
        s
    }
}

/// The text without its leading and trailing whitespace.
pub open spec fn trimmed(s: Seq<char>) -> Seq<char> {
    trim_end_spec(trim_start_spec(s))
}

/// What `str::to_lowercase` makes of a text (full Unicode lowercase mapping).
pub uninterp spec fn lowercased(s: Seq<char>) -> Seq<char>;

/// Relies on `str::trim`: the slice without leading and trailing whitespace,
/// whitespace being what `char::is_whitespace` accepts.
#[verifier::external_body]
fn trim_text(s: &str) -> (r: &str)
    ensures
        r@ == trimmed(s@),
{
    s.trim()
}

/// Relies on `str::to_lowercase`: the text with every letter lowercased.
#[verifier::external_body]
fn lowercase_text(s: &str) -> (r: String)
    ensures
        r@ == lowercased(s@),
{
    s.to_lowercase()
}

/// Whether an answer already trimmed and lowercased is the affirmative token `y`.
pub fn is_yes(normalized: &String) -> (r: bool)
    ensures
        r == (normalized@ == seq!['y']),
{
    proof {
        reveal_strlit("y");
    }
    let yes = String::from_str("y");
    assert(yes@ =~= seq!['y']);
    let r = normalized.eq(&yes);
    r
}

/// Whether a line read from the user is affirmative: trimmed and lowercased,
/// it is `y`. Anything else is a refusal.
pub fn is_affirmative(line: &str) -> (r: bool)
    ensures
        r == (lowercased(trimmed(line@)) == seq!['y']),
{
    let t = trim_text(line);
    let lower = lowercase_text(t);
    is_yes(&lower)
}

} // verus!
