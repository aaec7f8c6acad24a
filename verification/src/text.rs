//! Text operations that come from std or from the fuzzy matcher. Each item
//! here is trusted: its contract restates what the called function's
//! documentation or source says, and is believed without proof.
use nucleo_matcher::pattern::{CaseMatching, Normalization, Pattern};
use nucleo_matcher::{Config, Matcher, Utf32Str};
use vstd::prelude::*;

verus! {

/// The longest pattern word, counted as nucleo counts its needle, that is
/// scored. A word is scored in a `u16`: at most 36 points for its first
/// character and 26 for each other one (a match of 16 plus a bonus of at
/// most 10), so 2048 characters stay below 53,300 and cannot overflow.
pub const MAX_WORD_CHARS: usize = 2048;

/// The bytes a character takes in UTF-8.
pub open spec fn char_utf8_len(c: char) -> nat {
    if (c as u32) < 0x80 {
        1
    } else if (c as u32) < 0x800 {
        2
    } else if (c as u32) < 0x10000 {
        3
    } else {
        4
    }
}

/// The length in bytes of the UTF-8 encoding of `s`, which is how Rust
/// stores a `str`.
pub open spec fn utf8_len(s: Seq<char>) -> nat
    decreases s.len(),
{
    if s.len() == 0 {
        0
    } else {
        utf8_len(s.drop_last()) + char_utf8_len(s.last())
    }
}

/// What `str::to_lowercase` returns for a string (Unicode lower-casing).
pub uninterp spec fn lowercase(s: Seq<char>) -> Seq<char>;

/// Calls `str::to_lowercase`. The contract only names the result: it is
/// the same for the same input; the Unicode mapping itself is not restated.
#[verifier::external_body]
pub(crate) fn to_lowercase(s: &str) -> (r: String)
    ensures
        r@ == lowercase(s@),
{
    s.to_lowercase()
}

/// Calls `String::push`, which appends one character to the string.
#[verifier::external_body]
pub(crate) fn push_char(s: &mut String, c: char)
    ensures
        final(s)@ == old(s)@.push(c),
{
    s.push(c)
}

/// Calls `String::pop`, which removes and returns the last character, or
/// returns `None` and leaves an empty string alone.
#[verifier::external_body]
pub(crate) fn pop_char(s: &mut String) -> (r: Option<char>)
    ensures
        old(s)@.len() == 0 ==> r is None && final(s)@ == old(s)@,
        old(s)@.len() > 0 ==> r == Some(old(s)@.last()) && final(s)@ == old(s)@.drop_last(),
{
    s.pop()
}

#[verifier::external_type_specification]
#[verifier::external_body]
pub struct ExPattern(Pattern);

#[verifier::external_type_specification]
#[verifier::external_body]
pub struct ExMatcher(Matcher);

/// A filter parsed by nucleo into words, with a matcher to score them.
/// Its fields are private and `parse_filter` is the only way to make one, so
/// `pattern` is always what `Pattern::parse` gives for `text`, and `matcher`
/// always has the default configuration.
pub struct ParsedFilter {
    text: String,
    pattern: Pattern,
    matcher: Matcher,
}

impl ParsedFilter {
    /// The filter text this was parsed from.
    pub closed spec fn source(&self) -> Seq<char> {
        self.text@
    }
}

/// The number of words (`Pattern::atoms`) that `Pattern::parse(.., Ignore,
/// Smart)` makes of a filter.
pub uninterp spec fn nucleo_word_count(filter: Seq<char>) -> nat;

/// The length of the needle (`Atom::needle_text().len()`) of word `i`.
pub uninterp spec fn nucleo_word_len(filter: Seq<char>, i: int) -> nat;

/// What `Atom::score` gives word `i` of the filter against a haystack, on a
/// matcher with the default configuration: its `u16` score, or `None`.
pub uninterp spec fn nucleo_word_score(filter: Seq<char>, i: int, haystack: Seq<char>) -> Option<
    u16,
>;

/// Parses `filter` with `Pattern::parse(filter, CaseMatching::Ignore,
/// Normalization::Smart)` and makes a matcher with `Matcher::new(Config::DEFAULT)`.
#[verifier::external_body]
pub(crate) fn parse_filter(filter: &str) -> (r: ParsedFilter)
    ensures
        r.source() == filter@,
{
    ParsedFilter {
        text: filter.to_string(),
        pattern: Pattern::parse(filter, CaseMatching::Ignore, Normalization::Smart),
        matcher: Matcher::new(Config::DEFAULT),
    }
}

/// Reads `Pattern::atoms.len()`: the number of words nucleo keeps.
#[verifier::external_body]
pub(crate) fn word_total(p: &ParsedFilter) -> (n: usize)
    ensures
        n == nucleo_word_count(p.source()),
{
    p.pattern.atoms.len()
}

/// Calls `Atom::needle_text().len()` on word `i`.
#[verifier::external_body]
pub(crate) fn word_length(p: &ParsedFilter, i: usize) -> (n: usize)
    requires
        i < nucleo_word_count(p.source()),
    ensures
        n == nucleo_word_len(p.source(), i as int),
{
    p.pattern.atoms[i].needle_text().len()
}

/// Scores word `i` with `Atom::score(Utf32Str::new(haystack, ..), matcher)`.
/// `Atom::score` sets the matcher's case and normalisation from the word and
/// uses the rest of the default configuration; the matcher's scratch memory
/// does not change results, so the score depends on the strings alone.
/// nucleo asserts that the haystack has at most `u32::MAX` units (bytes, or
/// graphemes, which are fewer), and adds the word's points in a `u16`:
/// `requires` keeps both in range.
#[verifier::external_body]
pub(crate) fn score_word(p: &mut ParsedFilter, i: usize, haystack: &str) -> (r: Option<u16>)
    requires
        i < nucleo_word_count(old(p).source()),
        nucleo_word_len(old(p).source(), i as int) <= MAX_WORD_CHARS,
        utf8_len(haystack@) <= u32::MAX,
    ensures
        final(p).source() == old(p).source(),
        r == nucleo_word_score(old(p).source(), i as int, haystack@),
{
    let mut buf = Vec::new();
    p.pattern.atoms[i].score(Utf32Str::new(haystack, &mut buf), &mut p.matcher)
}

} // verus!
