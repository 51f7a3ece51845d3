//! Regular-expression matching, by the `regex` crate.
//!
//! What a regular expression matches is named, not stated: `regex_valid`,
//! `regex_first` and `regex_all` are the results of `Regex::new`,
//! `Regex::captures` and `Regex::captures_iter` for a pattern and a
//! haystack (taken by its UTF-8 bytes). Match positions are byte offsets.
//! How `regex::escape` quotes a literal is stated.
use vstd::prelude::*;

use regex::Regex;

verus! {

#[verifier::external_type_specification]
#[verifier::external_body]
pub struct ExRegex(Regex);

/// A compiled regular expression with the pattern it was compiled from.
pub struct Pattern {
    regex: Regex,
    source: String,
}

impl View for Pattern {
    type V = Seq<char>;

    closed spec fn view(&self) -> Seq<char> {
        self.source@
    }
}

/// One match: the byte span of the whole match and the text of each
/// capture group (group 0 is the whole match; `None` for a group that did
/// not take part).
#[derive(Debug, Clone)]
pub struct Captured {
    pub start: usize,
    pub end: usize,
    pub groups: Vec<Option<String>>,
}

/// The abstract content of a match.
pub open spec fn captured_view(c: Captured) -> (nat, nat, Seq<Option<Seq<char>>>) {
    (
        c.start as nat,
        c.end as nat,
        Seq::new(
            c.groups@.len(),
            |i: int|
                match c.groups@[i] {
                    Some(g) => Some(g@),
                    None => None,
                },
        ),
    )
}

/// Whether `Regex::new(pattern)` succeeds.
pub uninterp spec fn regex_valid(pattern: Seq<char>) -> bool;

/// What `Regex::captures` finds for a pattern in a haystack: the leftmost
/// match's span and capture groups.
pub uninterp spec fn regex_first(pattern: Seq<char>, haystack: Seq<u8>) -> Option<
    (nat, nat, Seq<Option<Seq<char>>>),
>;

/// What `Regex::captures_iter` yields for a pattern in a haystack: the
/// successive non-overlapping matches.
pub uninterp spec fn regex_all(pattern: Seq<char>, haystack: Seq<u8>) -> Seq<
    (nat, nat, Seq<Option<Seq<char>>>),
>;

/// The characters that have a meaning in a pattern and are escaped to be
/// matched literally.
pub open spec fn is_regex_meta(c: char) -> bool {
    c == '\\' || c == '.' || c == '+' || c == '*' || c == '?' || c == '(' || c == ')' || c == '|'
        || c == '[' || c == ']' || c == '{' || c == '}' || c == '^' || c == '$' || c == '#' || c
        == '&' || c == '-' || c == '~'
}

/// A text with a backslash before each of its meta characters.
pub open spec fn regex_escape(s: Seq<char>) -> Seq<char>
    decreases s.len(),
{
    if s.len() == 0 {
        Seq::empty()
    } else {
        regex_escape(s.drop_last()) + if is_regex_meta(s.last()) {
            seq!['\\', s.last()]
        } else {
            seq![s.last()]
        }
    }
}

/// A match lies in the haystack and starts and ends at character boundaries.
pub open spec fn well_placed(m: (nat, nat, Seq<Option<Seq<char>>>), haystack: Seq<u8>) -> bool {
    &&& m.0 <= m.1 <= haystack.len()
    &&& vstd::utf8::is_char_boundary(haystack, m.0 as int)
    &&& vstd::utf8::is_char_boundary(haystack, m.1 as int)
}

/// Compiles a pattern (`Regex::new`); `None` when it is not a valid regular
/// expression or exceeds the size limit.
#[verifier::external_body]
pub(crate) fn compile(pattern: &str) -> (r: Option<Pattern>)
    ensures
        (r is Some) == regex_valid(pattern@),
        r matches Some(p) ==> p@ == pattern@,
{
    match Regex::new(pattern) {
        Ok(regex) => Some(Pattern { regex, source: pattern.to_string() }),
        Err(_) => None,
    }
}

/// The leftmost match of a pattern in a haystack (`Regex::captures`).
/// Matches start and end on character boundaries, as the crate documents.
#[verifier::external_body]
pub(crate) fn first_match(p: &Pattern, haystack: &str) -> (r: Option<Captured>)
    ensures
        match r {
            Some(c) => regex_first(p@, vstd::utf8::encode_utf8(haystack@)) == Some(captured_view(c))
                && well_placed(captured_view(c), vstd::utf8::encode_utf8(haystack@)),
            None => regex_first(p@, vstd::utf8::encode_utf8(haystack@)) is None,
        },
{
    p.regex.captures(haystack).map(
        |c|
            Captured {
                start: c.get(0).map_or(0, |m| m.start()),
                end: c.get(0).map_or(0, |m| m.end()),
                groups: c.iter().map(|g| g.map(|m| m.as_str().to_string())).collect(),
            },
    )
}

/// The successive non-overlapping matches of a pattern in a haystack
/// (`Regex::captures_iter`).
#[verifier::external_body]
pub(crate) fn all_matches(p: &Pattern, haystack: &str) -> (r: Vec<Captured>)
    ensures
        r@.len() == regex_all(p@, vstd::utf8::encode_utf8(haystack@)).len(),
        forall|i: int|
            0 <= i < r@.len() ==> regex_all(p@, vstd::utf8::encode_utf8(haystack@))[i] == captured_view(
                #[trigger] r@[i],
            ) && well_placed(captured_view(r@[i]), vstd::utf8::encode_utf8(haystack@)),
{
    p.regex.captures_iter(haystack).map(
        |c|
            Captured {
                start: c.get(0).map_or(0, |m| m.start()),
                end: c.get(0).map_or(0, |m| m.end()),
                groups: c.iter().map(|g| g.map(|m| m.as_str().to_string())).collect(),
            },
    ).collect()
}

/// Escapes the meta characters of a text for use in a pattern
/// (`regex::escape`): a backslash goes before each of `\\ . + * ? ( ) | [ ] {
/// } ^ $ # & - ~`, every other character is kept.
#[verifier::external_body]
pub(crate) fn escape_literal(s: &str) -> (r: String)
    ensures
        r@ == regex_escape(s@),
{
    regex::escape(s)
}

} // verus!
