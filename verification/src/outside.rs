//! Calls into other crates and into parts of the standard library that only
//! compute: each is a small function whose contract is taken on trust.

use vstd::prelude::*;

use serde_json::Value;

use crate::json::{Json, JsonView};
use crate::text::opt_view;

verus! {

/// The groups of a match, each where it took part in it.
pub open spec fn groups_view(groups: Seq<Option<String>>) -> Seq<Option<Seq<char>>> {
    groups.map_values(|g: Option<String>| opt_view(g))
}

/// A match: where it starts and where it ends, counted in characters, and its
/// groups.
pub type Found = ((usize, usize), Vec<Option<String>>);

/// A match, with its groups as plain texts.
pub type FoundView = ((usize, usize), Seq<Option<Seq<char>>>);

/// Several matches.
pub open spec fn matches_view(ms: Seq<Found>) -> Seq<FoundView> {
    ms.map_values(|m: Found| (m.0, groups_view(m.1@)))
}

/// Matches from left to right, none of which reaches into the next, in a text of
/// `n` characters.
pub open spec fn in_order(ms: Seq<FoundView>, n: int) -> bool {
    &&& forall|k: int|
        0 <= k < ms.len() ==> (#[trigger] ms[k]).0.0 <= ms[k].0.1 && ms[k].0.1 <= n
    &&& forall|i: int, j: int| 0 <= i < j < ms.len() ==> (#[trigger] ms[i]).0.1 <= (#[trigger] ms[j]).0.0
}

/// The text of a group, where there is such a group and it took part.
pub open spec fn group(groups: Seq<Option<Seq<char>>>, i: int) -> Option<Seq<char>> {
    if 0 <= i < groups.len() {
        groups[i]
    } else {
        None
    }
}

/// The groups of a match that there may be.
pub type Groups = Option<Vec<Option<String>>>;

/// The texts of the groups of a match that there may be.
pub open spec fn opt_groups(m: Groups) -> Option<Seq<Option<Seq<char>>>> {
    match m {
        Some(groups) => Some(groups_view(groups@)),
        None => None,
    }
}

/// The groups of the first match of a pattern in a text.
pub uninterp spec fn first_match(pattern: Seq<char>, text: Seq<char>) -> Option<
    Seq<Option<Seq<char>>>,
>;

/// `regex::Regex::captures`, after `regex::Regex::new`: the groups of the first
/// match, the whole match first, each as the text that it covers. There is no
/// match where the pattern is not a regular expression. What the groups are is
/// left to the crate; the contract says that pattern and text determine them.
#[verifier::external_body]
pub(crate) fn regex_captures(pattern: &str, text: &str) -> (r: Option<Vec<Option<String>>>)
    ensures
        match r {
            Some(groups) => first_match(pattern@, text@) == Some(groups_view(groups@)),
            None => first_match(pattern@, text@) is None,
        },
{
    let re = regex::Regex::new(pattern).ok()?;
    let caps = re.captures(text)?;
    Some(caps.iter().map(|m| m.map(|g| g.as_str().to_string())).collect())
}

/// All matches of a pattern in a text.
pub uninterp spec fn all_matches(pattern: Seq<char>, text: Seq<char>) -> Seq<
    ((usize, usize), Seq<Option<Seq<char>>>),
>;

/// `regex::Regex::captures_iter`, after `regex::Regex::new`: each match from left
/// to right, with its place in characters and its groups. Matches do not overlap.
/// There are none where the pattern is not a regular expression. What they are is
/// left to the crate; the contract says that pattern and text determine them.
#[verifier::external_body]
pub(crate) fn regex_captures_iter(pattern: &str, text: &str) -> (r: Vec<Found>)
    ensures
        matches_view(r@) == all_matches(pattern@, text@),
        in_order(matches_view(r@), text@.len() as int),
{
    let chars = |to: usize| text[..to].chars().count();
    match regex::Regex::new(pattern) {
        Ok(re) => re
            .captures_iter(text)
            .map(|c| {
                let all = c.get(0).unwrap();
                let groups = c.iter().map(|m| m.map(|g| g.as_str().to_string())).collect();
                ((chars(all.start()), chars(all.end())), groups)
            })
            .collect(),
        Err(_) => Vec::new(),
    }
}

/// Whether a pattern matches somewhere in a text; nothing where it is not a
/// regular expression.
pub uninterp spec fn is_matched(pattern: Seq<char>, text: Seq<char>) -> Option<bool>;

/// `regex::Regex::is_match`, after `regex::Regex::new`. Which texts a pattern
/// matches is left to the crate; the contract says that pattern and text
/// determine the answer, and that there is one only for a regular expression.
#[verifier::external_body]
pub(crate) fn regex_is_match(pattern: &str, text: &str) -> (r: Option<bool>)
    ensures
        r == is_matched(pattern@, text@),
{
    match regex::Regex::new(pattern) {
        Ok(re) => Some(re.is_match(text)),
        Err(_) => None,
    }
}

/// A text with every match of a pattern replaced.
pub uninterp spec fn replaced_matches(pattern: Seq<char>, text: Seq<char>, by: Seq<char>) -> Seq<
    char,
>;

/// `regex::Regex::replace_all`, after `regex::Regex::new`; the text itself
/// where the pattern is not a regular expression. What the replacement does
/// with groups is left to the crate; the contract says that pattern, text and
/// replacement determine the result.
#[verifier::external_body]
pub(crate) fn regex_replace_all(pattern: &str, text: &str, by: &str) -> (r: String)
    ensures
        r@ == replaced_matches(pattern@, text@, by@),
{
    match regex::Regex::new(pattern) {
        Ok(re) => re.replace_all(text, by).into_owned(),
        Err(_) => text.to_string(),
    }
}

/// Whether a character means something in a regular expression.
pub open spec fn is_meta(c: char) -> bool {
    c == '\\' || c == '.' || c == '+' || c == '*' || c == '?' || c == '(' || c == ')' || c == '|'
        || c == '[' || c == ']' || c == '{' || c == '}' || c == '^' || c == '$' || c == '#' || c
        == '&' || c == '-' || c == '~'
}

/// A text with a backslash before each character that means something.
pub open spec fn escaped(s: Seq<char>) -> Seq<char>
    decreases s.len(),
{
    if s.len() == 0 {
        Seq::empty()
    } else if is_meta(s.last()) {
        escaped(s.drop_last()).push('\\').push(s.last())
    } else {
        escaped(s.drop_last()).push(s.last())
    }
}

/// `regex::escape`: a backslash before each character that means something in a
/// regular expression.
#[verifier::external_body]
pub(crate) fn regex_escape(text: &str) -> (r: String)
    ensures
        r@ == escaped(text@),
{
    regex::escape(text)
}

/// The lower case of a text.
pub uninterp spec fn lowercase(s: Seq<char>) -> Seq<char>;

/// `str::to_lowercase`: the lower case equivalent of the text by the Unicode
/// property. Which characters that changes is left to the standard library; the
/// contract says that the text determines the result.
#[verifier::external_body]
pub(crate) fn to_lowercase(s: &str) -> (r: String)
    ensures
        r@ == lowercase(s@),
{
    s.to_lowercase()
}

/// The value that a JSON text stands for, or why it is none.
pub uninterp spec fn json_text(s: Seq<char>) -> Result<JsonView, Seq<char>>;

/// `serde_json::from_str` into a `serde_json::Value`, which is taken apart one level
/// at a time, its parts written out and parsed again: an integer that is not negative
/// is a number, any other number is kept as it is written out. Which texts are JSON,
/// in which order the members of an object stand, and what is said of a text that is
/// not JSON is left to the crate; the contract says that the text determines the
/// result.
#[verifier::external_body]
pub(crate) fn parse_json(text: &str) -> (r: Result<Json, String>)
    ensures
        match r {
            Ok(j) => json_text(text@) == Ok::<JsonView, Seq<char>>(j@),
            Err(e) => json_text(text@) == Err::<JsonView, Seq<char>>(e@),
        },
{
    let part = |v: Value| parse_json(&v.to_string()).unwrap_or(Json::Null);
    let value: Value = serde_json::from_str(text).map_err(|e| e.to_string())?;
    Ok(match value {
        Value::Null => Json::Null,
        Value::Bool(b) => Json::Bool(b),
        Value::Number(n) => n.as_u64().map_or(Json::Numeral(n.to_string()), Json::Number),
        Value::String(t) => Json::Text(t),
        Value::Array(a) => Json::Array(a.into_iter().map(part).collect()),
        Value::Object(o) => Json::Object(o.into_iter().map(|(k, v)| (k, part(v))).collect()),
    })
}

/// `chrono::Utc::now` and `to_rfc3339`: the time of the call. Nothing is said
/// of it.
#[verifier::external_body]
pub(crate) fn now_rfc3339() -> (r: String) {
    chrono::Utc::now().to_rfc3339()
}

} // verus!
