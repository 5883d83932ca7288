//! From a line of text to its words.
//!
//! A word is a maximal run of characters that are not whitespace. Parentheses
//! are words like any other: `( foo )` holds three words, `(foo)` one.
//!
//! A [`Token`] is a word together with its reading as a number. Reading a
//! number takes floating-point arithmetic, which is the caller's part: the
//! caller hands over the bit pattern of the value that the word denotes.

use vstd::prelude::*;
use vstd::string::StrSliceExecFns;
use crate::expr::names_view;

verus! {

/// Whether a character is whitespace, as `char::is_whitespace` tells it: the
/// character has the Unicode property `White_Space`.
pub uninterp spec fn is_whitespace(c: char) -> bool;

/// Trusted: the result of `char::is_whitespace` is what [`is_whitespace`]
/// names. The method depends on the character alone.
#[verifier::external_body]
fn char_is_whitespace(c: char) -> (white: bool)
    ensures
        white == is_whitespace(c),
{
    c.is_whitespace()
}

/// The end of the run of characters without whitespace that starts at `i`:
/// the position of the first whitespace character from `i` on, or the length
/// of `s` where there is none.
pub open spec fn word_end(s: Seq<char>, i: int) -> int
    decreases s.len() - i,
{
    if i < 0 || i >= s.len() || is_whitespace(s[i]) {
        i
    } else {
        word_end(s, i + 1)
    }
}

/// A run ends at or after its start, and within the text.
pub proof fn lemma_word_end_bounds(s: Seq<char>, i: int)
    requires
        0 <= i <= s.len(),
    ensures
        i <= word_end(s, i) <= s.len(),
        forall|k: int| i <= k < word_end(s, i) ==> !is_whitespace(#[trigger] s[k]),
        word_end(s, i) < s.len() ==> is_whitespace(s[word_end(s, i)]),
    decreases s.len() - i,
{
    if i < s.len() && !is_whitespace(s[i]) {
        lemma_word_end_bounds(s, i + 1);
    }
}

/// The words of `s` from position `i` on, in order.
pub open spec fn words_from(s: Seq<char>, i: int) -> Seq<Seq<char>>
    decreases s.len() - i,
{
    if i < 0 || i >= s.len() {
        Seq::empty()
    } else if is_whitespace(s[i]) {
        words_from(s, i + 1)
    } else {
        proof {
            lemma_word_end_bounds(s, i + 1);
        }
        let end = word_end(s, i + 1);
        seq![s.subrange(i, end)] + words_from(s, end)
    }
}

/// The words of `s`: its maximal runs of characters that are not whitespace,
/// in the order in which they stand.
pub open spec fn words(s: Seq<char>) -> Seq<Seq<char>> {
    words_from(s, 0)
}

/// A text with at least one character and no whitespace.
pub open spec fn is_word(w: Seq<char>) -> bool {
    w.len() > 0 && forall|j: int| 0 <= j < w.len() ==> !is_whitespace(#[trigger] w[j])
}

/// Every word found from position `i` on holds at least one character and
/// no whitespace.
pub proof fn lemma_words_from_are_words(s: Seq<char>, i: int)
    requires
        0 <= i,
    ensures
        forall|k: int| 0 <= k < words_from(s, i).len() ==> is_word(#[trigger] words_from(s, i)[k]),
    decreases s.len() - i,
{
    if i < s.len() {
        if is_whitespace(s[i]) {
            lemma_words_from_are_words(s, i + 1);
            assert(words_from(s, i) == words_from(s, i + 1));
        } else {
            let end = word_end(s, i + 1);
            lemma_word_end_bounds(s, i + 1);
            lemma_words_from_are_words(s, end);
            let first = s.subrange(i, end);
            assert(is_word(first)) by {
                assert forall|j: int| 0 <= j < first.len() implies !is_whitespace(
                    #[trigger] first[j],
                ) by {
                    assert(first[j] == s[i + j]);
                }
            }
            assert forall|k: int| 0 <= k < words_from(s, i).len() implies is_word(
                #[trigger] words_from(s, i)[k],
            ) by {
                assert(words_from(s, i) == seq![first] + words_from(s, end));
                if k > 0 {
                    assert(words_from(s, i)[k] == words_from(s, end)[k - 1]);
                } else {
                    assert(words_from(s, i)[0] == first);
                }
            }
        }
    }
}

/// The words of a text hold at least one character each and no whitespace;
/// a text without characters has no words.
pub proof fn lemma_words_are_words(s: Seq<char>)
    ensures
        forall|k: int| 0 <= k < words(s).len() ==> is_word(#[trigger] words(s)[k]),
        s.len() == 0 ==> words(s).len() == 0,
{
    lemma_words_from_are_words(s, 0);
}

/// The mathematical form of a token.
pub struct Lexeme {
    pub text: Seq<char>,
    pub number: Option<u64>,
}

/// A word of the input and what it denotes as a number.
#[derive(Debug, PartialEq, Eq)]
pub struct Token {
    /// The word as it was written.
    pub text: String,
    /// Where the word can be read as a 64-bit IEEE 754 number, the bit
    /// pattern of that number.
    pub number: Option<u64>,
}

impl View for Token {
    type V = Lexeme;

    open spec fn view(&self) -> Lexeme {
        Lexeme { text: self.text@, number: self.number }
    }
}

/// The mathematical form of a sequence of tokens.
pub open spec fn tokens_view(tokens: Seq<Token>) -> Seq<Lexeme> {
    Seq::new(tokens.len(), |i: int| tokens[i]@)
}

impl Token {
    /// The token for the word `text`, which reads as `number`.
    pub fn new(text: &str, number: Option<u64>) -> (token: Token)
        ensures
            token@ == (Lexeme { text: text@, number }),
    {
        Token { text: text.to_owned(), number }
    }
}

/// The characters of a string, one by one.
fn characters(text: &str) -> (chars: Vec<char>)
    ensures
        chars@ == text@,
{
    let mut chars: Vec<char> = Vec::new();
    for c in it: text.chars()
        invariant
            it.seq() == text@,
            chars@ == text@.take(it.index()),
    {
        chars.push(c);
        assert(text@.take(it.index() + 1) =~= text@.take(it.index()).push(c));
    }
    assert(text@.take(text@.len() as int) =~= text@);
    chars
}

/// Splits a line into its words.
///
/// Text without a word (the empty line, or whitespace alone) has no words.
pub fn tokenize(line: &str) -> (found: Vec<String>)
    ensures
        names_view(found@) == words(line@),
{
    let chars = characters(line);
    let n = chars.len();
    let mut found: Vec<String> = Vec::new();
    let mut i: usize = 0;
    while i < n
        invariant
            chars@ == line@,
            n == line@.len(),
            i <= n,
            words(line@) == names_view(found@) + words_from(line@, i as int),
        decreases n - i,
    {
        if char_is_whitespace(chars[i]) {
            i += 1;
        } else {
            let start = i;
            i += 1;
            while i < n && !char_is_whitespace(chars[i])
                invariant
                    chars@ == line@,
                    n == line@.len(),
                    start < i <= n,
                    word_end(line@, start + 1) == word_end(line@, i as int),
                decreases n - i,
            {
                i += 1;
            }
            let word = line.substring_char(start, i).to_owned();
            proof {
                assert(names_view(found@.push(word)) =~= names_view(found@) + seq![
                    line@.subrange(start as int, i as int),
                ]);
            }
            found.push(word);
        }
    }
    assert(names_view(found@) + words_from(line@, n as int) =~= names_view(found@));
    found
}

} // verus!
