use regex::Regex;
use vstd::prelude::*;

use crate::text::{string_views, trimmed_nonempty, trim_and_drop_empty};

verus! {

#[verifier::external_type_specification]
#[verifier::external_body]
pub struct ExRegex(Regex);

/// Whether `regex::Regex::new` accepts `pattern`: it is valid syntax and its
/// compiled form stays under the crate's default size limit.
pub uninterp spec fn regex_compiles(pattern: Seq<char>) -> bool;

/// The text of the successive non-overlapping leftmost-first matches that
/// `regex::Regex::find_iter` yields for `pattern` in `haystack`.
pub uninterp spec fn regex_find_all(pattern: Seq<char>, haystack: Seq<char>) -> Seq<Seq<char>>;

/// The substrings between the matches that `regex::Regex::split` yields for
/// `pattern` in `haystack`.
pub uninterp spec fn regex_split(pattern: Seq<char>, haystack: Seq<char>) -> Seq<Seq<char>>;

/// A regular expression together with the pattern it was compiled from.
/// Only `compile_pattern` builds one, so the two always belong together.
struct CompiledPattern {
    pattern: String,
    re: Regex,
}

impl View for CompiledPattern {
    type V = Seq<char>;

    closed spec fn view(&self) -> Seq<char> {
        self.pattern@
    }
}

/// Calls `regex::Regex::new`. The contract names the outcome: `Some` exactly
/// when the crate accepts the pattern, holding that pattern.
#[verifier::external_body]
fn compile_pattern(pattern: &str) -> (res: Option<CompiledPattern>)
    ensures
        res is Some <==> regex_compiles(pattern@),
        res matches Some(c) ==> c@ == pattern@,
{
    Regex::new(pattern).ok().map(|re| CompiledPattern { pattern: pattern.to_string(), re })
}

/// Calls `regex::Regex::find_iter` and copies the text of each match; the
/// contract ties the result to the pattern and the haystack by name.
#[verifier::external_body]
fn find_all(re: &CompiledPattern, haystack: &str) -> (res: Vec<String>)
    ensures
        string_views(res@) == regex_find_all(re@, haystack@),
{
    re.re.find_iter(haystack).map(|m| m.as_str().to_string()).collect()
}

/// Calls `regex::Regex::split` and copies each piece; the contract ties the
/// result to the pattern and the haystack by name.
#[verifier::external_body]
fn split_all(re: &CompiledPattern, haystack: &str) -> (res: Vec<String>)
    ensures
        string_views(res@) == regex_split(re@, haystack@),
{
    re.re.split(haystack).map(|s| s.to_string()).collect()
}

/// The pattern that picks words and punctuation out of a text: one of
/// `, . : ; ? ! " ( ) '`, a double or single dash, or a run of word characters.
pub open spec fn word_pattern() -> Seq<char> {
    "([,.:;?!\\\"()\\']|--|-|[\\w\\d]+)"@
}

/// The pattern that separates the words of a text: one of
/// `, . : ; ? _ ! " ( ) '`, a double dash, or a run of whitespace.
pub open spec fn separator_pattern() -> Seq<char> {
    "([,.:;?_!\"()']|--|\\s+)"@
}

/// The words of `text`: the matches of the word pattern, trimmed, without
/// the empty ones.
pub open spec fn words_of(text: Seq<char>) -> Seq<Seq<char>> {
    trimmed_nonempty(regex_find_all(word_pattern(), text))
}

/// The words of `text` as pieces between separators, trimmed, without the
/// empty ones.
pub open spec fn pieces_of(text: Seq<char>) -> Seq<Seq<char>> {
    trimmed_nonempty(regex_split(separator_pattern(), text))
}

/// The words and punctuation marks of `text`, or `None` where the word
/// pattern does not compile.
pub fn extract_words(text: &str) -> (res: Option<Vec<String>>)
    ensures
        res is Some <==> regex_compiles(word_pattern()),
        res matches Some(w) ==> string_views(w@) == words_of(text@),
{
    let pattern = "([,.:;?!\\\"()\\']|--|-|[\\w\\d]+)";
    match compile_pattern(pattern) {
        Some(re) => {
            let matches = find_all(&re, text);
            Some(trim_and_drop_empty(&matches))
        },
        None => None,
    }
}

/// Splits `text` at punctuation, double dashes and whitespace and keeps the
/// non-empty trimmed pieces, or gives `None` where the separator pattern does
/// not compile.
pub fn split_into_words(text: &str) -> (res: Option<Vec<String>>)
    ensures
        res is Some <==> regex_compiles(separator_pattern()),
        res matches Some(w) ==> string_views(w@) == pieces_of(text@),
{
    let pattern = "([,.:;?_!\"()']|--|\\s+)";
    match compile_pattern(pattern) {
        Some(re) => {
            let pieces = split_all(&re, text);
            Some(trim_and_drop_empty(&pieces))
        },
        None => None,
    }
}

/// The punctuation marks that each make a word of their own.
pub open spec fn word_marks() -> Seq<char> {
    seq![',', '.', ':', ';', '?', '!', '"', '(', ')', '\'']
}

/// The punctuation marks that each separate words.
pub open spec fn separator_marks() -> Seq<char> {
    seq![',', '.', ':', ';', '?', '_', '!', '"', '(', ')', '\'']
}

/// The word pattern is `([,.:;?!\"()\']|--|-|[\w\d]+)`, character by
/// character: an alternation whose first branch is a character class that
/// holds every one of `, . : ; ? ! " ( ) '`, so each of these marks is
/// matched as a word of its own, followed by the double dash, the dash and
/// runs of word characters.
pub proof fn lemma_word_pattern()
    ensures
        word_pattern() == seq![
            '(', '[', ',', '.', ':', ';', '?', '!', '\\', '"', '(', ')', '\\', '\'', ']',
            '|', '-', '-', '|', '-', '|', '[', '\\', 'w', '\\', 'd', ']', '+', ')',
        ],
        word_pattern().subrange(0, 2) == seq!['(', '['],
        !word_pattern().subrange(2, 14).contains(']'),
        word_pattern()[14] == ']',
        forall|i: int|
            0 <= i < word_marks().len() ==> word_pattern().subrange(2, 14).contains(
                #[trigger] word_marks()[i],
            ),
{
    reveal_strlit("([,.:;?!\\\"()\\']|--|-|[\\w\\d]+)");
    let p = word_pattern();
    let class = p.subrange(2, 14);
    assert(class =~= seq![',', '.', ':', ';', '?', '!', '\\', '"', '(', ')', '\\', '\'']);
    assert(class[0] == ',' && class[1] == '.' && class[2] == ':' && class[3] == ';');
    assert(class[4] == '?' && class[5] == '!' && class[7] == '"' && class[8] == '(');
    assert(class[9] == ')' && class[11] == '\'');
    assert forall|i: int| 0 <= i < word_marks().len() implies class.contains(
        #[trigger] word_marks()[i],
    ) by {
        let j: int = if i < 6 { i } else if i == 6 { 7 } else if i == 9 { 11 } else { i + 1 };
        assert(class[j] == word_marks()[i]);
    }
}

/// The separator pattern is `([,.:;?_!"()']|--|\s+)`, character by
/// character: an alternation whose first branch is a character class that
/// holds every one of `, . : ; ? _ ! " ( ) '`, so each of these marks splits
/// words apart, followed by the double dash and runs of whitespace.
pub proof fn lemma_separator_pattern()
    ensures
        separator_pattern() == seq![
            '(', '[', ',', '.', ':', ';', '?', '_', '!', '"', '(', ')', '\'', ']', '|', '-', '-',
            '|', '\\', 's', '+', ')',
        ],
        separator_pattern().subrange(0, 2) == seq!['(', '['],
        !separator_pattern().subrange(2, 13).contains(']'),
        separator_pattern()[13] == ']',
        separator_pattern().subrange(2, 13) == separator_marks(),
{
    reveal_strlit("([,.:;?_!\"()']|--|\\s+)");
    let p = separator_pattern();
    assert(p.subrange(2, 13) =~= separator_marks());
}

} // verus!
