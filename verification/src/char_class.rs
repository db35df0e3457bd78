//! Which characters may stand in a name and which count as digits.
//!
//! For ASCII the two classes are spelled out here. For every other character
//! the regular-expression engine is asked, so that names and numbers in any
//! script are read the way its classes `\w` and `\d` read them.

use vstd::prelude::*;

verus! {

/// The answer of the regular-expression engine to "does `pattern`, compiled
/// with the default options, match somewhere in `text`?"; `None` when the
/// pattern does not compile or the search is given up.
pub uninterp spec fn regex_match(pattern: Seq<char>, text: Seq<char>) -> Option<bool>;

/// Calls `fancy_regex::Regex::new` on `pattern` and `Regex::is_match` on
/// `text`. Trusted: the answer depends on the two texts alone, so it is the
/// value that `regex_match` names; an error of either call gives `None`.
#[verifier::external_body]
pub(crate) fn regex_is_match(pattern: &str, text: &str) -> (r: Option<bool>)
    ensures
        r == regex_match(pattern@, text@),
{
    match fancy_regex::Regex::new(pattern) {
        Ok(re) => re.is_match(text).ok(),
        Err(_) => None,
    }
}

/// The pattern that matches a text of exactly one word character.
pub open spec fn word_pattern() -> Seq<char> {
    "^\\w$"@
}

/// The pattern that matches a text of exactly one decimal digit.
pub open spec fn digit_pattern() -> Seq<char> {
    "^\\d$"@
}

pub open spec fn is_ascii_char(c: char) -> bool {
    c <= '\x7f'
}

pub open spec fn is_ascii_digit(c: char) -> bool {
    '0' <= c <= '9'
}

pub open spec fn is_ascii_word(c: char) -> bool {
    ||| 'a' <= c <= 'z'
    ||| 'A' <= c <= 'Z'
    ||| '0' <= c <= '9'
    ||| c == '_'
}

/// A character that may stand in a tag name or an attribute name: an ASCII
/// letter, digit or underscore, or a character beyond ASCII that the engine
/// counts as a word character.
pub open spec fn is_word_char(c: char) -> bool {
    if is_ascii_char(c) {
        is_ascii_word(c)
    } else {
        regex_match(word_pattern(), seq![c]) == Some(true)
    }
}

/// A decimal digit: `0` to `9`, or a character beyond ASCII that the engine
/// counts as a digit.
pub open spec fn is_digit_char(c: char) -> bool {
    if is_ascii_char(c) {
        is_ascii_digit(c)
    } else {
        regex_match(digit_pattern(), seq![c]) == Some(true)
    }
}

/// Every character of `s` is a word character.
pub open spec fn all_word_chars(s: Seq<char>) -> bool {
    forall|i: int| 0 <= i < s.len() ==> is_word_char(#[trigger] s[i])
}

/// Asks the engine whether the one-character text `c` matches `pattern`.
fn class_holds(pattern: &str, c: char) -> (b: bool)
    ensures
        b == (regex_match(pattern@, seq![c]) == Some(true)),
{
    let mut one = String::new();
    one.push(c);
    assert(one@ == seq![c]);
    match regex_is_match(pattern, one.as_str()) {
        Some(found) => found,
        None => false,
    }
}

/// Whether `c` is a word character.
pub fn word_char(c: char) -> (b: bool)
    ensures
        b == is_word_char(c),
{
    if c <= '\x7f' {
        (c >= 'a' && c <= 'z') || (c >= 'A' && c <= 'Z') || (c >= '0' && c <= '9') || c == '_'
    } else {
        class_holds("^\\w$", c)
    }
}

/// Whether `c` is a decimal digit.
pub fn digit_char(c: char) -> (b: bool)
    ensures
        b == is_digit_char(c),
{
    if c <= '\x7f' {
        c >= '0' && c <= '9'
    } else {
        class_holds("^\\d$", c)
    }
}

/// The end of the longest run of word characters of `s` that starts at
/// `from`: the first index at or after `from` that holds no word character.
pub open spec fn word_run_end(s: Seq<char>, from: int) -> int
    decreases s.len() - from,
{
    if 0 <= from < s.len() && is_word_char(s[from]) {
        word_run_end(s, from + 1)
    } else {
        from
    }
}

/// The run from `from` to `word_run_end` holds word characters only, and the
/// character after it, if there is one, is none.
pub proof fn lemma_word_run(s: Seq<char>, from: int)
    requires
        0 <= from <= s.len(),
    ensures
        from <= word_run_end(s, from) <= s.len(),
        forall|j: int| from <= j < word_run_end(s, from) ==> is_word_char(#[trigger] s[j]),
        word_run_end(s, from) < s.len() ==> !is_word_char(s[word_run_end(s, from)]),
    decreases s.len() - from,
{
    if from < s.len() && is_word_char(s[from]) {
        lemma_word_run(s, from + 1);
    }
}

/// A run of word characters that ends at `end`, where no word character
/// stands, is the run that `word_run_end` finds.
pub proof fn lemma_word_run_is(s: Seq<char>, from: int, end: int)
    requires
        0 <= from <= end <= s.len(),
        forall|j: int| from <= j < end ==> is_word_char(#[trigger] s[j]),
        end < s.len() ==> !is_word_char(s[end]),
    ensures
        word_run_end(s, from) == end,
    decreases end - from,
{
    if from < end {
        lemma_word_run_is(s, from + 1, end);
    }
}

/// The end of the run of word characters of `s` that starts at `from`.
pub fn scan_word_run(s: &Vec<char>, from: usize) -> (end: usize)
    requires
        from <= s.len(),
    ensures
        end == word_run_end(s@, from as int),
        from <= end <= s.len(),
{
    let mut i: usize = from;
    while i < s.len() && word_char(s[i])
        invariant
            from <= i <= s.len(),
            word_run_end(s@, from as int) == word_run_end(s@, i as int),
        decreases s.len() - i,
    {
        i += 1;
    }
    i
}

} // verus!
