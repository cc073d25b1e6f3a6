//! Regular-expression calls (the `regex` crate). What a match gives is named
//! here rather than restated: the pattern and the haystack go in, and the
//! contracts of the callers speak of these names.
use vstd::prelude::*;

verus! {

/// What `regex::Regex::new(pattern)` and then `Regex::is_match(text)` give:
/// `None` when the pattern does not compile.
pub uninterp spec fn regex_is_match_result(pattern: Seq<char>, text: Seq<char>) -> Option<bool>;

/// What `regex::Regex::new(pattern)` and then `Regex::find(text)` give, as
/// the (start, end) offsets of the leftmost-first match: `None` when the
/// pattern does not compile, `Some(None)` when nothing matches.
pub uninterp spec fn regex_find_result(pattern: Seq<char>, text: Seq<char>) -> Option<
    Option<(nat, nat)>,
>;

/// What `regex::Regex::new(pattern)` and then `Regex::replace_all(text, rep)`
/// give: `None` when the pattern does not compile.
pub uninterp spec fn regex_replace_all_result(
    pattern: Seq<char>,
    text: Seq<char>,
    rep: Seq<char>,
) -> Option<Seq<char>>;

/// What `regex::escape(text)` gives.
pub uninterp spec fn regex_escape_result(text: Seq<char>) -> Seq<char>;

/// Calls `regex::Regex::new(pattern)` and, when it compiles, `is_match(text)`.
/// The result is named, not restated.
#[verifier::external_body]
pub(crate) fn regex_is_match(pattern: &str, text: &str) -> (r: Option<bool>)
    ensures
        r == regex_is_match_result(pattern@, text@),
{
    regex::Regex::new(pattern).ok().map(|re| re.is_match(text))
}

/// Calls `regex::Regex::new(pattern)` and, when it compiles, `find(text)`,
/// handing back the match's byte offsets. The result is named; the one fact
/// stated is the documented one that a match lies within the haystack
/// (for an ASCII haystack byte offsets are character offsets).
#[verifier::external_body]
pub(crate) fn regex_find(pattern: &str, text: &str) -> (r: Option<Option<(usize, usize)>>)
    ensures
        r == (match regex_find_result(pattern@, text@) {
            Some(Some((s, e))) => Some(Some((s as usize, e as usize))),
            Some(None) => Some(None),
            None => None,
        }),
        crate::text::ascii(text@) ==> (r matches Some(Some((s, e))) ==> s <= e <= text@.len()
            && regex_find_result(pattern@, text@) == Some(Some((s as nat, e as nat)))),
{
    regex::Regex::new(pattern).ok().map(|re| re.find(text).map(|m| (m.start(), m.end())))
}

/// Calls `regex::Regex::new(pattern)` and, when it compiles,
/// `replace_all(text, rep)`. The result is named; the one fact stated is that
/// replacing in an ASCII text with an ASCII replacement that refers to no
/// capture group (no `$`) leaves an ASCII text, which holds because the
/// result is made of pieces of the text and copies of the replacement.
#[verifier::external_body]
pub(crate) fn regex_replace_all(pattern: &str, text: &str, rep: &str) -> (r: Option<String>)
    ensures
        match r {
            Some(s) => regex_replace_all_result(pattern@, text@, rep@) == Some(s@),
            None => regex_replace_all_result(pattern@, text@, rep@) is None,
        },
        crate::text::ascii(text@) && crate::text::ascii(rep@) && !rep@.contains('$') ==> (r matches Some(
            s,
        ) ==> crate::text::ascii(s@)),
{
    regex::Regex::new(pattern).ok().map(|re| re.replace_all(text, rep).to_string())
}

/// Calls `regex::escape(text)`. The result is named, not restated.
#[verifier::external_body]
pub(crate) fn regex_escape(text: &str) -> (r: String)
    ensures
        r@ == regex_escape_result(text@),
{
    regex::escape(text)
}

} // verus!
