//! Regular expression searches, made by the `regex` and `regex-lite` crates.

use vstd::prelude::*;

verus! {

/// `regex::Error`, the error of a pattern that `regex` refuses.
#[verifier::external_type_specification]
#[verifier::external_body]
pub struct ExRegexError(regex::Error);

/// `regex_lite::Error`, the error of a pattern that `regex_lite` refuses.
#[verifier::external_type_specification]
#[verifier::external_body]
pub struct ExLiteError(regex_lite::Error);

/// The text of a capture group, if the group took part in the match.
pub open spec fn group_view(group: Option<String>) -> Option<Seq<char>> {
    match group {
        Some(text) => Some(text@),
        None => None,
    }
}

/// The texts of the capture groups of one match; group 0 is the whole match.
pub open spec fn groups_view(groups: Seq<Option<String>>) -> Seq<Option<Seq<char>>> {
    groups.map_values(|g: Option<String>| group_view(g))
}

/// The capture groups of each of a list of matches.
pub open spec fn matches_view(found: Seq<Vec<Option<String>>>) -> Seq<Seq<Option<Seq<char>>>> {
    found.map_values(|m: Vec<Option<String>>| groups_view(m@))
}

/// What `regex_lite` finds for a pattern in a text: `None` where it refuses
/// the pattern, else the capture groups of the leftmost match, if any.
pub uninterp spec fn lite_captures(pattern: Seq<char>, text: Seq<char>) -> Option<
    Option<Seq<Option<Seq<char>>>>,
>;

/// The capture groups of all successive matches that `regex_lite` finds for
/// a pattern in a text; `None` where it refuses the pattern.
pub uninterp spec fn lite_captures_all(pattern: Seq<char>, text: Seq<char>) -> Option<
    Seq<Seq<Option<Seq<char>>>>,
>;

/// The text in which `regex_lite` has replaced the leftmost match of a
/// pattern by the expansion of `rep`; `None` where it refuses the pattern.
pub uninterp spec fn lite_replaced(pattern: Seq<char>, text: Seq<char>, rep: Seq<char>) -> Option<
    Seq<char>,
>;

/// Whether `regex` finds a match of a pattern in a text; `None` where it
/// refuses the pattern.
pub uninterp spec fn regex_matches(pattern: Seq<char>, text: Seq<char>) -> Option<bool>;

/// The text in which `regex` has replaced the leftmost match of a pattern by
/// the expansion of `rep`; `None` where it refuses the pattern.
pub uninterp spec fn regex_replaced(pattern: Seq<char>, text: Seq<char>, rep: Seq<char>) -> Option<
    Seq<char>,
>;

/// The text in which `regex` has replaced every match of a pattern by the
/// expansion of `rep`; `None` where it refuses the pattern.
pub uninterp spec fn regex_replaced_all(
    pattern: Seq<char>,
    text: Seq<char>,
    rep: Seq<char>,
) -> Option<Seq<char>>;

/// Compiles the pattern with `regex_lite::Regex::new` and calls
/// `Regex::captures`: the result is a function of pattern and text alone.
#[verifier::external_body]
pub(crate) fn lite_find(pattern: &str, text: &str) -> (r: Result<
    Option<Vec<Option<String>>>,
    regex_lite::Error,
>)
    ensures
        match r {
            Ok(Some(groups)) => lite_captures(pattern@, text@) == Some(Some(groups_view(groups@))),
            Ok(None) => lite_captures(pattern@, text@) == Some(
                None::<Seq<Option<Seq<char>>>>,
            ),
            Err(_) => lite_captures(pattern@, text@) is None,
        },
{
    let re = regex_lite::Regex::new(pattern)?;
    Ok(
        re.captures(text).map(
            |caps| caps.iter().map(|g| g.map(|m| m.as_str().to_string())).collect(),
        ),
    )
}

/// Compiles the pattern with `regex_lite::Regex::new` and calls
/// `Regex::captures_iter`: the result is a function of pattern and text
/// alone.
#[verifier::external_body]
pub(crate) fn lite_find_all(pattern: &str, text: &str) -> (r: Result<
    Vec<Vec<Option<String>>>,
    regex_lite::Error,
>)
    ensures
        match r {
            Ok(found) => lite_captures_all(pattern@, text@) == Some(matches_view(found@)),
            Err(_) => lite_captures_all(pattern@, text@) is None,
        },
{
    let re = regex_lite::Regex::new(pattern)?;
    Ok(
        re.captures_iter(text).map(
            |caps| caps.iter().map(|g| g.map(|m| m.as_str().to_string())).collect(),
        ).collect(),
    )
}

/// Compiles the pattern with `regex_lite::Regex::new` and calls
/// `Regex::replace`: the result is a function of pattern, text and
/// replacement alone.
#[verifier::external_body]
pub(crate) fn lite_replace(pattern: &str, text: &str, rep: &str) -> (r: Result<
    String,
    regex_lite::Error,
>)
    ensures
        match r {
            Ok(out) => lite_replaced(pattern@, text@, rep@) == Some(out@),
            Err(_) => lite_replaced(pattern@, text@, rep@) is None,
        },
{
    let re = regex_lite::Regex::new(pattern)?;
    Ok(re.replace(text, rep).into_owned())
}

/// Compiles the pattern with `regex::Regex::new` and calls `Regex::is_match`:
/// the result is a function of pattern and text alone.
#[verifier::external_body]
pub(crate) fn regex_is_match(pattern: &str, text: &str) -> (r: Result<bool, regex::Error>)
    ensures
        match r {
            Ok(found) => regex_matches(pattern@, text@) == Some(found),
            Err(_) => regex_matches(pattern@, text@) is None,
        },
{
    let re = regex::Regex::new(pattern)?;
    Ok(re.is_match(text))
}

/// Compiles the pattern with `regex::Regex::new` and calls `Regex::replace`:
/// the result is a function of pattern, text and replacement alone.
#[verifier::external_body]
pub(crate) fn regex_replace(pattern: &str, text: &str, rep: &str) -> (r: Result<
    String,
    regex::Error,
>)
    ensures
        match r {
            Ok(out) => regex_replaced(pattern@, text@, rep@) == Some(out@),
            Err(_) => regex_replaced(pattern@, text@, rep@) is None,
        },
{
    let re = regex::Regex::new(pattern)?;
    Ok(re.replace(text, rep).into_owned())
}

/// Compiles the pattern with `regex::Regex::new` and calls
/// `Regex::replace_all`: the result is a function of pattern, text and
/// replacement alone.
#[verifier::external_body]
pub(crate) fn regex_replace_all(pattern: &str, text: &str, rep: &str) -> (r: Result<
    String,
    regex::Error,
>)
    ensures
        match r {
            Ok(out) => regex_replaced_all(pattern@, text@, rep@) == Some(out@),
            Err(_) => regex_replaced_all(pattern@, text@, rep@) is None,
        },
{
    let re = regex::Regex::new(pattern)?;
    Ok(re.replace_all(text, rep).into_owned())
}

} // verus!
