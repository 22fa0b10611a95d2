//! Holding process names against the whitelist and the exclusion list.

use vstd::prelude::*;
use regex::Regex;
use wildmatch::WildMatch;
use crate::config::settings::MatchMode;
use crate::utils::text::{contains, is_substring, lowercase, to_lowercase};

verus! {

/// Whether a wildcard pattern matches the whole of a text: `?` stands for
/// exactly one character, `*` for any run of characters, the empty one
/// included, and every other character for itself.
pub open spec fn wildcard_matches(pattern: Seq<char>, text: Seq<char>) -> bool
    decreases pattern.len(), text.len(),
{
    if pattern.len() == 0 {
        text.len() == 0
    } else if pattern[0] == '*' {
        wildcard_matches(pattern.skip(1), text) || (text.len() > 0 && wildcard_matches(
            pattern,
            text.skip(1),
        ))
    } else {
        text.len() > 0 && (pattern[0] == '?' || pattern[0] == text[0]) && wildcard_matches(
            pattern.skip(1),
            text.skip(1),
        )
    }
}

/// What the `regex` crate makes of a pattern and a text: `None` when the
/// pattern does not compile, else whether the text holds a match anywhere.
pub uninterp spec fn regex_search(pattern: Seq<char>, text: Seq<char>) -> Option<bool>;

/// Each text in lower case.
pub open spec fn lowered(texts: Seq<Seq<char>>) -> Seq<Seq<char>> {
    texts.map_values(|t: Seq<char>| lowercase(t))
}

/// Whether some pattern matches the text as a wildcard pattern.
pub open spec fn some_wildcard_matches(patterns: Seq<Seq<char>>, text: Seq<char>) -> bool {
    exists|i: int| 0 <= i < patterns.len() && wildcard_matches(#[trigger] patterns[i], text)
}

/// Whether some fragment occurs in the text.
pub open spec fn some_fragment_occurs(fragments: Seq<Seq<char>>, text: Seq<char>) -> bool {
    exists|i: int| 0 <= i < fragments.len() && is_substring(#[trigger] fragments[i], text)
}

/// Whether some search found a match.
pub open spec fn some_hit(outcomes: Seq<Option<bool>>) -> bool {
    outcomes.contains(Some(true))
}

/// The outcome of searching the text with each pattern as a regular
/// expression.
pub open spec fn regex_outcomes(patterns: Seq<Seq<char>>, text: Seq<char>) -> Seq<Option<bool>> {
    patterns.map_values(|p: Seq<char>| regex_search(p, text))
}

/// Whether a name equals some pattern, case aside.
pub open spec fn exactly_listed(patterns: Seq<Seq<char>>, name: Seq<char>) -> bool {
    lowered(patterns).contains(lowercase(name))
}

/// Whether some pattern, as a wildcard pattern, matches a name, case aside.
pub open spec fn wildcard_listed(patterns: Seq<Seq<char>>, name: Seq<char>) -> bool {
    some_wildcard_matches(lowered(patterns), lowercase(name))
}

/// Whether some pattern, as a regular expression, finds a match in a name.
/// A pattern that does not compile matches nothing.
pub open spec fn regex_listed(patterns: Seq<Seq<char>>, name: Seq<char>) -> bool {
    some_hit(regex_outcomes(patterns, name))
}

/// Whether the whitelist takes a name in, under the given mode.
pub open spec fn whitelisted(mode: MatchMode, patterns: Seq<Seq<char>>, name: Seq<char>) -> bool {
    patterns.len() > 0 && match mode {
        MatchMode::Exact => exactly_listed(patterns, name),
        MatchMode::Wildcard => wildcard_listed(patterns, name),
        MatchMode::Regex => regex_listed(patterns, name),
    }
}

/// Whether a name holds some exclusion fragment, case aside.
pub open spec fn excluded(fragments: Seq<Seq<char>>, name: Seq<char>) -> bool {
    some_fragment_occurs(lowered(fragments), lowercase(name))
}

/// Builds a `wildmatch::WildMatch` from the pattern and asks it whether it
/// `matches` the text. Trusted: the crate documents that a pattern matches
/// only the whole of a text, with `?` for exactly one character and `*` for
/// any number of characters, and without escape characters.
#[verifier::external_body]
fn wildcard_match(pattern: &str, text: &str) -> (matched: bool)
    ensures
        matched == wildcard_matches(pattern@, text@),
{
    WildMatch::new(pattern).matches(text)
}

/// Compiles the pattern with `regex::Regex::new` and, where that succeeds,
/// asks `Regex::is_match` for the text. Trusted: the outcome depends on the
/// two texts alone, and this crate only names it.
#[verifier::external_body]
fn search(pattern: &str, text: &str) -> (outcome: Option<bool>)
    ensures
        outcome == regex_search(pattern@, text@),
{
    match Regex::new(pattern) {
        Ok(compiled) => Some(compiled.is_match(text)),
        Err(_) => None,
    }
}

/// Turns every text into lower case.
pub fn lowercase_all(texts: &Vec<String>) -> (lower: Vec<String>)
    ensures
        lower.deep_view() == lowered(texts.deep_view()),
{
    let mut lower: Vec<String> = Vec::new();
    let mut i: usize = 0;
    while i < texts.len()
        invariant
            i <= texts.len(),
            lower@.len() == i,
            forall|k: int| 0 <= k < i ==> lower@[k]@ == lowercase(texts@[k]@),
        decreases texts.len() - i,
    {
        lower.push(to_lowercase(texts[i].as_str()));
        i += 1;
    }
    assert(lower.deep_view() =~= lowered(texts.deep_view()));
    lower
}

/// Whether the text is one of the candidates.
pub fn any_equal(candidates: &Vec<String>, text: &String) -> (found: bool)
    ensures
        found == candidates.deep_view().contains(text@),
{
    let mut i: usize = 0;
    while i < candidates.len()
        invariant
            i <= candidates.len(),
            forall|k: int| 0 <= k < i ==> candidates@[k]@ != text@,
        decreases candidates.len() - i,
    {
        if candidates[i].eq(text) {
            assert(candidates.deep_view()[i as int] == text@);
            return true;
        }
        i += 1;
    }
    false
}

/// Whether some pattern matches the text as a wildcard pattern.
pub fn any_wildcard(patterns: &Vec<String>, text: &str) -> (found: bool)
    ensures
        found == some_wildcard_matches(patterns.deep_view(), text@),
{
    let mut i: usize = 0;
    while i < patterns.len()
        invariant
            i <= patterns.len(),
            forall|k: int| 0 <= k < i ==> !wildcard_matches(patterns@[k]@, text@),
        decreases patterns.len() - i,
    {
        if wildcard_match(patterns[i].as_str(), text) {
            assert(wildcard_matches(patterns.deep_view()[i as int], text@));
            return true;
        }
        i += 1;
    }
    assert forall|k: int| 0 <= k < patterns.len() implies !wildcard_matches(
        #[trigger] patterns.deep_view()[k],
        text@,
    ) by {
        assert(patterns.deep_view()[k] == patterns@[k]@);
    }
    false
}

/// Whether some fragment occurs in the text.
pub fn any_fragment(fragments: &Vec<String>, text: &str) -> (found: bool)
    ensures
        found == some_fragment_occurs(fragments.deep_view(), text@),
{
    let mut i: usize = 0;
    while i < fragments.len()
        invariant
            i <= fragments.len(),
            forall|k: int| 0 <= k < i ==> !is_substring(fragments@[k]@, text@),
        decreases fragments.len() - i,
    {
        if contains(text, fragments[i].as_str()) {
            assert(is_substring(fragments.deep_view()[i as int], text@));
            return true;
        }
        i += 1;
    }
    assert forall|k: int| 0 <= k < fragments.len() implies !is_substring(
        #[trigger] fragments.deep_view()[k],
        text@,
    ) by {
        assert(fragments.deep_view()[k] == fragments@[k]@);
    }
    false
}

/// Searches the text with each pattern as a regular expression.
pub fn search_all(patterns: &Vec<String>, text: &str) -> (outcomes: Vec<Option<bool>>)
    ensures
        outcomes@ == regex_outcomes(patterns.deep_view(), text@),
{
    let mut outcomes: Vec<Option<bool>> = Vec::new();
    let mut i: usize = 0;
    while i < patterns.len()
        invariant
            i <= patterns.len(),
            outcomes@.len() == i,
            forall|k: int| 0 <= k < i ==> outcomes@[k] == regex_search(patterns@[k]@, text@),
        decreases patterns.len() - i,
    {
        outcomes.push(search(patterns[i].as_str(), text));
        i += 1;
    }
    assert(outcomes@ =~= regex_outcomes(patterns.deep_view(), text@));
    outcomes
}

/// Whether some search found a match; a pattern that did not compile counts
/// as finding none.
pub fn any_hit(outcomes: &Vec<Option<bool>>) -> (found: bool)
    ensures
        found == some_hit(outcomes@),
{
    let mut i: usize = 0;
    while i < outcomes.len()
        invariant
            i <= outcomes.len(),
            forall|k: int| 0 <= k < i ==> outcomes@[k] != Some(true),
        decreases outcomes.len() - i,
    {
        match outcomes[i] {
            Some(true) => {
                return true;
            },
            _ => {},
        }
        i += 1;
    }
    false
}

/// With an empty whitelist no name is taken in, whatever the mode.
pub proof fn lemma_empty_whitelist_takes_nothing(mode: MatchMode, name: Seq<char>)
    ensures
        !whitelisted(mode, Seq::empty(), name),
{
}

} // verus!
