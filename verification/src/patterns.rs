//! Patterns that texts are matched against.
use vstd::prelude::*;

use crate::text::{contains_ignoring_case, holds_ignoring_case, strip_leading, without_leading};

verus! {

/// What the `regex` crate says of a pattern that it does not accept; nothing if it accepts it.
pub uninterp spec fn regex_rejection(pattern: Seq<char>) -> Option<Seq<char>>;

/// Whether the `regex` crate accepts a pattern.
pub open spec fn regex_valid(pattern: Seq<char>) -> bool {
    regex_rejection(pattern) is None
}

/// What the `regex` crate says of a pattern that it does not accept.
pub open spec fn regex_error_text(pattern: Seq<char>) -> Seq<char> {
    regex_rejection(pattern)->0
}

/// Whether the `regex` crate finds a match of an accepted pattern in a text.
pub uninterp spec fn regex_matches(pattern: Seq<char>, haystack: Seq<char>) -> bool;

/// `regex::Regex::new`: it accepts the pattern, or gives an error. Which of the two, and what the
/// error says, depends on the pattern alone.
#[verifier::external_body]
pub(crate) fn check_regex(pattern: &str) -> (r: Result<(), String>)
    ensures
        match r {
            Ok(_) => regex_rejection(pattern@) is None,
            Err(message) => regex_rejection(pattern@) == Some(message@),
        },
{
    match regex::Regex::new(pattern) {
        Ok(_) => Ok(()),
        Err(error) => Err(error.to_string()),
    }
}

/// `regex::Regex::is_match` of the pattern that `regex::Regex::new` accepted. Whether there is a
/// match depends on the pattern and the text alone.
#[verifier::external_body]
pub(crate) fn search_regex(pattern: &str, haystack: &str) -> (r: Result<bool, String>)
    ensures
        match r {
            Ok(found) => regex_rejection(pattern@) is None && found == regex_matches(
                pattern@,
                haystack@,
            ),
            Err(message) => regex_rejection(pattern@) == Some(message@),
        },
{
    match regex::Regex::new(pattern) {
        Ok(regex) => Ok(regex.is_match(haystack)),
        Err(error) => Err(error.to_string()),
    }
}

/// Why a regular expression was not accepted.
#[derive(Debug, PartialEq, Eq)]
pub struct RegexError {
    pub message: String,
}

/// A pattern: a text to be found in any case of letters, or a regular expression.
#[derive(Debug, PartialEq, Eq)]
pub enum PatternMatcher {
    Text(String),
    Regex(String),
}

/// What a [`PatternMatcher`] says: its texts as sequences of characters.
#[verifier::ext_equal]
pub enum PatternMatcherModel {
    Text(Seq<char>),
    Regex(Seq<char>),
}

impl DeepView for PatternMatcher {
    type V = PatternMatcherModel;

    open spec fn deep_view(&self) -> PatternMatcherModel {
        match self {
            PatternMatcher::Text(a) => PatternMatcherModel::Text(a@),
            PatternMatcher::Regex(a) => PatternMatcherModel::Regex(a@),
        }
    }
}

impl Clone for PatternMatcher {
    fn clone(&self) -> (copy: Self)
        ensures
            copy.deep_view() == self.deep_view(),
    {
        match self {
            PatternMatcher::Text(a) => {
                let copy = PatternMatcher::Text(a.clone());
                assert(copy.deep_view() =~= self.deep_view());
                copy
            },
            PatternMatcher::Regex(a) => {
                let copy = PatternMatcher::Regex(a.clone());
                assert(copy.deep_view() =~= self.deep_view());
                copy
            },
        }
    }
}

/// Whether a matcher matches a text, or what is wrong with its pattern.
pub open spec fn matcher_outcome(matcher: PatternMatcherModel, haystack: Seq<char>) -> Result<
    bool,
    Seq<char>,
> {
    match matcher {
        PatternMatcherModel::Text(wanted) => Ok(contains_ignoring_case(haystack, wanted)),
        PatternMatcherModel::Regex(pattern) => if regex_valid(pattern) {
            Ok(regex_matches(pattern, haystack))
        } else {
            Err(regex_error_text(pattern))
        },
    }
}

/// Whether one of the matchers matches. They are tried in order up to the first match; a pattern
/// that is tried and not accepted is an error.
pub open spec fn any_outcome(matchers: Seq<PatternMatcherModel>, haystack: Seq<char>) -> Result<
    bool,
    Seq<char>,
>
    decreases matchers.len(),
{
    if matchers.len() == 0 {
        Ok(false)
    } else {
        match matcher_outcome(matchers.first(), haystack) {
            Ok(false) => any_outcome(matchers.skip(1), haystack),
            outcome => outcome,
        }
    }
}

/// A channel's name without the signs that it starts with.
pub open spec fn bare_channel_name(name: Seq<char>) -> Seq<char> {
    strip_leading(name, '#')
}

/// Whether a matcher matches a channel's name, with or without its leading signs.
pub open spec fn channel_name_outcome(matcher: PatternMatcherModel, name: Seq<char>) -> Result<
    bool,
    Seq<char>,
> {
    match matcher_outcome(matcher, name) {
        Ok(false) => if bare_channel_name(name) == name {
            Ok(false)
        } else {
            matcher_outcome(matcher, bare_channel_name(name))
        },
        outcome => outcome,
    }
}

/// Whether one of the matchers matches a channel's name, tried in order up to the first match.
pub open spec fn any_channel_name_outcome(
    matchers: Seq<PatternMatcherModel>,
    name: Seq<char>,
) -> Result<bool, Seq<char>>
    decreases matchers.len(),
{
    if matchers.len() == 0 {
        Ok(false)
    } else {
        match channel_name_outcome(matchers.first(), name) {
            Ok(false) => any_channel_name_outcome(matchers.skip(1), name),
            outcome => outcome,
        }
    }
}

/// What a result of matching says.
pub open spec fn said(result: Result<bool, RegexError>) -> Result<bool, Seq<char>> {
    match result {
        Ok(found) => Ok(found),
        Err(error) => Err(error.message@),
    }
}

impl PatternMatcher {
    /// Whether the matcher matches a text.
    pub fn matches(&self, haystack: &str) -> (r: Result<bool, RegexError>)
        ensures
            said(r) == matcher_outcome(self.deep_view(), haystack@),
    {
        match self {
            PatternMatcher::Text(wanted) => Ok(holds_ignoring_case(haystack, wanted.as_str())),
            PatternMatcher::Regex(pattern) => {
                match search_regex(pattern.as_str(), haystack) {
                    Ok(found) => Ok(found),
                    Err(message) => Err(RegexError { message }),
                }
            },
        }
    }
}

/// Whether one of the matchers matches a text.
pub fn any_matches(matchers: &Vec<PatternMatcher>, haystack: &str) -> (r: Result<bool, RegexError>)
    ensures
        said(r) == any_outcome(matchers.deep_view(), haystack@),
{
    let ghost all = matchers.deep_view();
    let mut i: usize = 0;
    assert(all.skip(0) =~= all);
    while i < matchers.len()
        invariant
            i <= matchers.len(),
            all == matchers.deep_view(),
            any_outcome(all, haystack@) == any_outcome(all.skip(i as int), haystack@),
        decreases matchers.len() - i,
    {
        assert(all.skip(i as int).first() == matchers[i as int].deep_view());
        assert(all.skip(i as int).skip(1) =~= all.skip(i as int + 1));
        match matchers[i].matches(haystack) {
            Ok(true) => {
                return Ok(true);
            },
            Ok(false) => {},
            Err(error) => {
                return Err(error);
            },
        }
        i += 1;
    }
    Ok(false)
}

/// Whether a matcher matches a channel's name, with or without its leading signs.
pub fn channel_name_matches(matcher: &PatternMatcher, channel_name: &str) -> (r: Result<
    bool,
    RegexError,
>)
    ensures
        said(r) == channel_name_outcome(matcher.deep_view(), channel_name@),
{
    let raw = without_leading(channel_name, '#');
    match matcher.matches(channel_name) {
        Ok(true) => Ok(true),
        Ok(false) => {
            if crate::text::same_text(raw.as_str(), channel_name) {
                Ok(false)
            } else {
                matcher.matches(raw.as_str())
            }
        },
        Err(error) => Err(error),
    }
}

/// Whether one of the matchers matches a channel's name.
pub fn any_channel_name_matches(matchers: &Vec<PatternMatcher>, channel_name: &str) -> (r: Result<
    bool,
    RegexError,
>)
    ensures
        said(r) == any_channel_name_outcome(matchers.deep_view(), channel_name@),
{
    let ghost all = matchers.deep_view();
    let mut i: usize = 0;
    assert(all.skip(0) =~= all);
    while i < matchers.len()
        invariant
            i <= matchers.len(),
            all == matchers.deep_view(),
            any_channel_name_outcome(all, channel_name@) == any_channel_name_outcome(
                all.skip(i as int),
                channel_name@,
            ),
        decreases matchers.len() - i,
    {
        assert(all.skip(i as int).first() == matchers[i as int].deep_view());
        assert(all.skip(i as int).skip(1) =~= all.skip(i as int + 1));
        match channel_name_matches(&matchers[i], channel_name) {
            Ok(true) => {
                return Ok(true);
            },
            Ok(false) => {},
            Err(error) => {
                return Err(error);
            },
        }
        i += 1;
    }
    Ok(false)
}

} // verus!
