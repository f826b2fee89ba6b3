//! Regular expressions, as the `regex` crate matches them.
//!
//! What a pattern matches is not defined here: each search has a name, and the
//! functions below state that they return what that name stands for.

use vstd::prelude::*;
use crate::text::texts;

verus! {

/// The text of capture group `group` in the leftmost match of `pattern` in
/// `text`; `None` where the pattern does not compile, does not match, or the
/// group took no part in the match. Group 0 is the whole match.
pub uninterp spec fn first_capture(pattern: Seq<char>, text: Seq<char>, group: int) -> Option<
    Seq<char>,
>;

/// As `first_capture`, for the capture group called `name`.
pub uninterp spec fn first_named_capture(
    pattern: Seq<char>,
    text: Seq<char>,
    name: Seq<char>,
) -> Option<Seq<char>>;

/// Every match of `pattern` in `text`, from the left and not overlapping, each
/// as the texts of its capture groups, group 0 first. Empty where the pattern
/// does not compile.
pub uninterp spec fn all_captures(pattern: Seq<char>, text: Seq<char>) -> Seq<
    Seq<Option<Seq<char>>>,
>;

/// Group `index` of one match, where it took part.
pub open spec fn group(one_match: Seq<Option<Seq<char>>>, index: int) -> Option<Seq<char>> {
    if 0 <= index < one_match.len() {
        one_match[index]
    } else {
        None
    }
}

/// Whether the groups `same` of one match all took part, with one text.
pub open spec fn groups_agree(one_match: Seq<Option<Seq<char>>>, same: Seq<int>) -> bool {
    forall|i: int|
        0 <= i < same.len() ==> group(one_match, #[trigger] same[i]) is Some && group(
            one_match,
            same[i],
        ) == group(one_match, same[0])
}

/// The text of group `wanted` in the first of the matches, from position
/// `from` on, whose groups `same` agree and in which `wanted` took part.
pub open spec fn tied_hit_from(
    matches: Seq<Seq<Option<Seq<char>>>>,
    wanted: int,
    same: Seq<int>,
    from: int,
) -> Option<Seq<char>>
    decreases matches.len() - from,
{
    if from < 0 || from >= matches.len() {
        None
    } else if groups_agree(matches[from], same) && group(matches[from], wanted) is Some {
        group(matches[from], wanted)
    } else {
        tied_hit_from(matches, wanted, same, from + 1)
    }
}

/// The text of group `wanted` in the first match of `pattern` in `text` whose
/// groups `same` hold one text: what a pattern that refers back to a group
/// would find among these matches.
pub open spec fn tied_capture(
    pattern: Seq<char>,
    text: Seq<char>,
    wanted: int,
    same: Seq<int>,
) -> Option<Seq<char>> {
    tied_hit_from(all_captures(pattern, text), wanted, same, 0)
}

/// The group positions as numbers.
pub open spec fn positions(same: Seq<usize>) -> Seq<int> {
    same.map_values(|g: usize| g as int)
}

/// Whether `c` has a meaning of its own in a pattern.
pub open spec fn is_meta(c: char) -> bool {
    c == '\\' || c == '.' || c == '+' || c == '*' || c == '?' || c == '(' || c == ')' || c == '|'
        || c == '[' || c == ']' || c == '{' || c == '}' || c == '^' || c == '$' || c == '#' || c
        == '&' || c == '-' || c == '~'
}

/// `text` with a backslash put before each character that has a meaning of its
/// own in a pattern, so that the result matches `text` literally.
pub open spec fn escaped(text: Seq<char>) -> Seq<char>
    decreases text.len(),
{
    if text.len() == 0 {
        text
    } else if is_meta(text.last()) {
        escaped(text.drop_last()).push('\\').push(text.last())
    } else {
        escaped(text.drop_last()).push(text.last())
    }
}

/// The first pattern of the list, from position `from` on, that matches `text`
/// with group `group` taking part: its position and the text of that group.
pub open spec fn hit_from(patterns: Seq<Seq<char>>, text: Seq<char>, group: int, from: int) -> Option<
    (int, Seq<char>),
>
    decreases patterns.len() - from,
{
    if from < 0 || from >= patterns.len() {
        None
    } else {
        match first_capture(patterns[from], text, group) {
            Some(found) => Some((from, found)),
            None => hit_from(patterns, text, group, from + 1),
        }
    }
}

/// The text that the first matching pattern of the list captures in group
/// `group`.
pub open spec fn first_hit(patterns: Seq<Seq<char>>, text: Seq<char>, group: int) -> Option<
    Seq<char>,
> {
    match hit_from(patterns, text, group, 0) {
        Some((_, found)) => Some(found),
        None => None,
    }
}

/// The text that the first matching pattern of the list, from position `from`
/// on, captures in the group called `name`.
pub open spec fn named_hit_from(
    patterns: Seq<Seq<char>>,
    text: Seq<char>,
    name: Seq<char>,
    from: int,
) -> Option<Seq<char>>
    decreases patterns.len() - from,
{
    if from < 0 || from >= patterns.len() {
        None
    } else {
        match first_named_capture(patterns[from], text, name) {
            Some(found) => Some(found),
            None => named_hit_from(patterns, text, name, from + 1),
        }
    }
}

/// Compiles `pattern` with `regex::Regex::new`, searches `text` with
/// `Regex::captures` and reads group `group` with `Captures::get`. The contract
/// claims only that the outcome is the one named `first_capture`.
#[verifier::external_body]
pub(crate) fn capture(pattern: &str, text: &str, group: usize) -> (r: Option<String>)
    ensures
        r.deep_view() == first_capture(pattern@, text@, group as int),
{
    match regex::Regex::new(pattern) {
        Ok(re) => re.captures(text).and_then(|c| c.get(group).map(|m| m.as_str().to_string())),
        Err(_) => None,
    }
}

/// Compiles `pattern` with `regex::Regex::new`, searches `text` with
/// `Regex::captures` and reads the group called `name` with `Captures::name`.
/// The contract claims only that the outcome is the one named
/// `first_named_capture`.
#[verifier::external_body]
pub(crate) fn named_capture(pattern: &str, text: &str, name: &str) -> (r: Option<String>)
    ensures
        r.deep_view() == first_named_capture(pattern@, text@, name@),
{
    match regex::Regex::new(pattern) {
        Ok(re) => re.captures(text).and_then(|c| c.name(name).map(|m| m.as_str().to_string())),
        Err(_) => None,
    }
}

/// Compiles `pattern` with `regex::Regex::new` and walks `Regex::captures_iter`
/// over `text`, copying out the groups of each match. The contract claims only
/// that the outcome is the one named `all_captures`.
#[verifier::external_body]
pub(crate) fn captures(pattern: &str, text: &str) -> (r: Vec<Vec<Option<String>>>)
    ensures
        r.deep_view() == all_captures(pattern@, text@),
{
    match regex::Regex::new(pattern) {
        Ok(re) => re.captures_iter(text).map(
            |c| c.iter().map(|m| m.map(|m| m.as_str().to_string())).collect(),
        ).collect(),
        Err(_) => Vec::new(),
    }
}

/// `regex::escape`: the text with each meta character of the pattern syntax
/// preceded by a backslash, every other character unchanged.
#[verifier::external_body]
pub(crate) fn escape(text: &str) -> (r: String)
    ensures
        r@ == escaped(text@),
{
    regex::escape(text)
}

/// An owned copy of group `index` of one match, where it took part.
pub fn take_group(one_match: &Vec<Option<String>>, index: usize) -> (r: Option<String>)
    ensures
        r.deep_view() == group(one_match.deep_view(), index as int),
{
    if index < one_match.len() {
        match &one_match[index] {
            Some(found) => Some(found.clone()),
            None => None,
        }
    } else {
        None
    }
}

/// Whether the groups `same` of one match all took part, with one text.
pub fn agree(one_match: &Vec<Option<String>>, same: &Vec<usize>) -> (r: bool)
    ensures
        r == groups_agree(one_match.deep_view(), positions(same@)),
{
    if same.len() == 0 {
        return true;
    }
    let first = match take_group(one_match, same[0]) {
        Some(first) => first,
        None => {
            assert(positions(same@)[0] == same@[0] as int);
            return false;
        },
    };
    let mut i: usize = 0;
    while i < same.len()
        invariant
            i <= same.len(),
            same.len() > 0,
            group(one_match.deep_view(), same@[0] as int) == Some(first@),
            forall|k: int|
                0 <= k < i ==> group(one_match.deep_view(), #[trigger] positions(same@)[k])
                    == Some(first@),
        decreases same.len() - i,
    {
        let agrees = match take_group(one_match, same[i]) {
            Some(other) => crate::text::same_text(other.as_str(), first.as_str()),
            None => false,
        };
        if !agrees {
            assert(positions(same@)[i as int] == same@[i as int] as int);
            assert(positions(same@)[0] == same@[0] as int);
            return false;
        }
        assert(positions(same@)[i as int] == same@[i as int] as int);
        i += 1;
    }
    assert(positions(same@)[0] == same@[0] as int);
    true
}

/// Walks the matches of `pattern` in `text` and returns group `wanted` of the
/// first match whose groups `same` hold one text.
pub fn find_tied(pattern: &str, text: &str, wanted: usize, same: &Vec<usize>) -> (r: Option<String>)
    ensures
        r.deep_view() == tied_capture(pattern@, text@, wanted as int, positions(same@)),
{
    let matches = captures(pattern, text);
    let mut i: usize = 0;
    while i < matches.len()
        invariant
            i <= matches.len(),
            matches.deep_view() == all_captures(pattern@, text@),
            tied_capture(pattern@, text@, wanted as int, positions(same@)) == tied_hit_from(
                matches.deep_view(),
                wanted as int,
                positions(same@),
                i as int,
            ),
        decreases matches.len() - i,
    {
        assert(matches.deep_view()[i as int] == matches[i as int].deep_view());
        if agree(&matches[i], same) {
            match take_group(&matches[i], wanted) {
                Some(found) => {
                    return Some(found);
                },
                None => {},
            }
        }
        i += 1;
    }
    None
}

/// Tries the patterns in order, from position `from` on, and returns the
/// position of the first that matches with group `group` taking part, and the
/// text of that group.
pub fn find_from(patterns: &Vec<String>, text: &str, group: usize, from: usize) -> (r: Option<
    (usize, String),
>)
    ensures
        match r {
            Some((at, found)) => hit_from(texts(patterns@), text@, group as int, from as int)
                == Some((at as int, found@)) && from <= at < patterns.len(),
            None => hit_from(texts(patterns@), text@, group as int, from as int) is None,
        },
{
    let mut i: usize = from;
    while i < patterns.len()
        invariant
            from <= i,
            hit_from(texts(patterns@), text@, group as int, from as int) == hit_from(
                texts(patterns@),
                text@,
                group as int,
                i as int,
            ),
        decreases patterns.len() - i,
    {
        match capture(patterns[i].as_str(), text, group) {
            Some(found) => {
                return Some((i, found));
            },
            None => {},
        }
        i += 1;
    }
    None
}

/// Tries the patterns in order and returns what the first that matches
/// captures in group `group`.
pub fn find_first(patterns: &Vec<String>, text: &str, group: usize) -> (r: Option<String>)
    ensures
        r.deep_view() == first_hit(texts(patterns@), text@, group as int),
{
    match find_from(patterns, text, group, 0) {
        Some((_, found)) => Some(found),
        None => None,
    }
}

/// Tries the patterns in order and returns what the first that matches
/// captures in the group called `name`.
pub fn find_first_named(patterns: &Vec<String>, text: &str, name: &str) -> (r: Option<String>)
    ensures
        r.deep_view() == named_hit_from(texts(patterns@), text@, name@, 0),
{
    let mut i: usize = 0;
    while i < patterns.len()
        invariant
            named_hit_from(texts(patterns@), text@, name@, 0) == named_hit_from(
                texts(patterns@),
                text@,
                name@,
                i as int,
            ),
        decreases patterns.len() - i,
    {
        match named_capture(patterns[i].as_str(), text, name) {
            Some(found) => {
                return Some(found);
            },
            None => {},
        }
        i += 1;
    }
    None
}

} // verus!
