//! Texts that are kept from the parser.
//!
//! **Words.** The parser of the `sqlparser` crate gives up with a panic, not
//! with an error, on some texts in which the keyword `DIV` or the keyword
//! `GRANTED` stands. A text may therefore hold neither word, and a text that
//! holds one is refused before the parser sees it.
//!
//! The test is made on the characters of the text. A word counts where its
//! letters, in either case, are not followed by a letter, a digit or `_`,
//! whatever stands before them. So `dividend` is no `DIV`.
//!
//! Of strings the test knows only the plainest: in a text that holds none of
//! `\`, `"`, a backtick, `#`, `/`, `$` and no `--`, a word that stands after
//! an odd number of `'` does not count. In such a text nothing but a `'`
//! opens or closes anything, so what stands after an odd number of them
//! stands in a string, whether two `'` in a row are read as one written
//! twice or as the end of one string and the start of the next. In every
//! other text a word counts wherever it stands, in a string or a comment
//! too. So `'a div b'` is no `DIV`, and `"a div b"` is one.
//!
//! **Weight.** The parser descends recursively and counts its depth in some
//! places only: a chain of signs before a number, or of brackets in a `FROM`
//! clause, takes it one level deeper with every token, until the stack of
//! the thread is used up and the process ends. Whatever the parser does, one
//! level takes at least one token. So the [`weight`] of a text, which is not
//! less than the number of its tokens, bounds the depth, and a text heavier
//! than [`MAX_WEIGHT`] is refused before the parser sees it.
//!
//! The weight counts 3 for every `(` and 1 for every other character that
//! is neither a blank nor part of a word. A word is a run of letters of `a`
//! to `z`, digits and `_`. Of a word that begins with a letter or `_` the
//! first character and every digit count 1; of a word that begins with a
//! digit every character counts 1. The weight knows nothing of strings and
//! comments.
//!
//! It is not less than the number of tokens, for this reason. The tokens of
//! the tokenizer are pieces of the text that do not overlap, so it is enough
//! to give every token that is no blank a charged character of its own. A
//! token with a character outside of words has that one. A token in a word
//! that begins with a digit has any of its characters. A token that begins
//! where a word begins has the first character of the word. What is left are
//! tokens that begin further on in a word that begins with a letter. The
//! tokenizer cuts there only after a number: where a number such as `1.e5`
//! reaches into the word, and from there on number after number, `7e5L7e5`,
//! and at last perhaps a word. Every number has a digit for itself, and a
//! number with an exponent has a second, which the word after it takes.
//!
//! The bound is chosen for a thread with a stack of 2 MiB, the default of a
//! spawned thread, and an unoptimised build of the parser. There a chain of
//! 112 signs was parsed and one of 160 was not, so a token takes less than
//! 19 KiB; 40 brackets in a `FROM` clause were parsed and 48 were not, so a
//! `(` takes less than 53 KiB, which is less than 3 times 19 KiB. A text of
//! weight 80 therefore takes less than 1.5 MiB. On a smaller stack this
//! bound is not enough.

use vstd::prelude::*;

verus! {

/// Whether `c` is the small letter `lower` in either case. The dotless `ı`
/// counts as an `i`: written large it is an `I`.
pub open spec fn is_letter(c: char, lower: char) -> bool {
    c == lower || c as u32 + 32 == lower as u32 || (lower == 'i' && c == '\u{131}')
}

/// Whether a word goes on with `c`: a letter of `a` to `z` in either case, a
/// digit, or `_`.
pub open spec fn continues_word(c: char) -> bool {
    ('a' <= c <= 'z') || ('A' <= c <= 'Z') || ('0' <= c <= '9') || c == '_'
}

/// Whether `c` may open a string, a name or a comment in a way that the
/// test for words does not follow.
pub open spec fn is_opener(c: char) -> bool {
    c == '\\' || c == '"' || c == '`' || c == '#' || c == '/' || c == '$'
}

/// Whether nothing but a `'` opens or closes anything in the text: it holds
/// no [`is_opener`] and no `--`.
pub open spec fn is_plain(text: Seq<char>) -> bool {
    &&& forall|i: int| 0 <= i < text.len() ==> !is_opener(#[trigger] text[i])
    &&& forall|i: int| 0 <= i < text.len() - 1 ==> !(#[trigger] text[i] == '-' && text[i + 1] == '-')
}

/// Whether the text holds an odd number of `'`.
pub open spec fn ends_in_string(text: Seq<char>) -> bool
    decreases text.len(),
{
    if text.len() == 0 {
        false
    } else if text.last() == '\'' {
        !ends_in_string(text.drop_last())
    } else {
        ends_in_string(text.drop_last())
    }
}

/// Whether the letters of `word` stand in `text` from position `p` on, the
/// word does not go on after them, and it does not stand in a string of a
/// plain text.
pub open spec fn word_at(text: Seq<char>, p: int, word: Seq<char>) -> bool {
    &&& 0 <= p
    &&& p + word.len() <= text.len()
    &&& forall|k: int| 0 <= k < word.len() ==> is_letter(#[trigger] text[p + k], word[k])
    &&& (p + word.len() < text.len() ==> !continues_word(text[p + word.len()]))
    &&& !(is_plain(text) && ends_in_string(text.take(p)))
}

/// Whether `word` stands somewhere in `text`.
pub open spec fn holds_word(text: Seq<char>, word: Seq<char>) -> bool {
    exists|p: int| word_at(text, p, word)
}

/// Whether a text may be handed to the parser: it holds neither `div` nor
/// `granted`.
pub open spec fn parser_safe(text: Seq<char>) -> bool {
    !holds_word(text, seq!['d', 'i', 'v']) && !holds_word(
        text,
        seq!['g', 'r', 'a', 'n', 't', 'e', 'd'],
    )
}

/// The heaviest text that is handed to the parser.
pub const MAX_WEIGHT: u64 = 80;

/// Where a reader of a text stands: outside of any word, in a word that
/// began with a letter or `_`, or in a word that began with a digit.
#[derive(Debug, Clone, Copy, PartialEq, Eq, Structural)]
pub enum Scan {
    Outside,
    Word,
    Number,
}

/// Whether `c` is a blank: a space, a tab, a line feed or a carriage return.
pub open spec fn is_blank(c: char) -> bool {
    c == ' ' || c == '\t' || c == '\n' || c == '\r'
}

/// Whether `c` is a digit.
pub open spec fn is_digit(c: char) -> bool {
    '0' <= c <= '9'
}

/// Where the reader stands after the character `c`.
pub open spec fn next_scan(scan: Scan, c: char) -> Scan {
    if !continues_word(c) {
        Scan::Outside
    } else if scan == Scan::Outside {
        if is_digit(c) {
            Scan::Number
        } else {
            Scan::Word
        }
    } else {
        scan
    }
}

/// What the character `c` is charged: nothing for a blank, and nothing for
/// a letter or `_` that goes on with a word begun with a letter or `_`; 3 for
/// a `(`; 1 for every other character.
pub open spec fn charge(scan: Scan, c: char) -> nat {
    if is_blank(c) {
        0
    } else if c == '(' {
        3
    } else if continues_word(c) && !is_digit(c) && scan == Scan::Word {
        0
    } else {
        1
    }
}

/// Where the reader stands at the end of a text.
pub open spec fn scan_after(text: Seq<char>) -> Scan
    decreases text.len(),
{
    if text.len() == 0 {
        Scan::Outside
    } else {
        next_scan(scan_after(text.drop_last()), text.last())
    }
}

/// The weight of a text: the sum of what its characters are charged.
pub open spec fn weight(text: Seq<char>) -> nat
    decreases text.len(),
{
    if text.len() == 0 {
        0
    } else {
        weight(text.drop_last()) + charge(scan_after(text.drop_last()), text.last())
    }
}

/// A text is not lighter than its beginning.
pub proof fn lemma_weight_grows(text: Seq<char>, n: int)
    requires
        0 <= n <= text.len(),
    ensures
        weight(text.take(n)) <= weight(text),
    decreases text.len(),
{
    if n < text.len() {
        assert(text.drop_last().take(n) =~= text.take(n));
        lemma_weight_grows(text.drop_last(), n);
    } else {
        assert(text.take(n) =~= text);
    }
}

/// Decides whether a text weighs at most [`MAX_WEIGHT`].
pub fn is_light(sql: &str) -> (r: bool)
    ensures
        r == (weight(sql@) <= MAX_WEIGHT),
{
    let mut total: u64 = 0;
    let mut scan = Scan::Outside;
    assert(sql@.take(0) =~= Seq::<char>::empty());
    for c in it: sql.chars()
        invariant
            it.seq() == sql@,
            total <= MAX_WEIGHT,
            total == weight(sql@.take(it.index())),
            scan == scan_after(sql@.take(it.index())),
    {
        let ghost before = sql@.take(it.index());
        let ghost after = sql@.take(it.index() + 1);
        assert(after.drop_last() =~= before);
        assert(after.last() == c);
        let blank = c == ' ' || c == '\t' || c == '\n' || c == '\r';
        let word = goes_on(c);
        let digit = '0' <= c && c <= '9';
        let cost: u64 = if blank {
            0
        } else if c == '(' {
            3
        } else if word && !digit && scan == Scan::Word {
            0
        } else {
            1
        };
        if total + cost > MAX_WEIGHT {
            proof {
                lemma_weight_grows(sql@, it.index() + 1);
            }
            return false;
        }
        total = total + cost;
        scan = if !word {
            Scan::Outside
        } else if scan == Scan::Outside {
            if digit {
                Scan::Number
            } else {
                Scan::Word
            }
        } else {
            scan
        };
    }
    assert(sql@.take(sql@.len() as int) =~= sql@);
    true
}

/// Decides [`is_letter`].
fn letter_is(c: char, lower: char) -> (r: bool)
    ensures
        r == is_letter(c, lower),
{
    c == lower || (c as u32) + 32 == lower as u32 || (lower == 'i' && c == '\u{131}')
}

/// Decides [`continues_word`].
fn goes_on(c: char) -> (r: bool)
    ensures
        r == continues_word(c),
{
    ('a' <= c && c <= 'z') || ('A' <= c && c <= 'Z') || ('0' <= c && c <= '9') || c == '_'
}

/// Decides [`is_plain`].
fn plain(text: &Vec<char>) -> (r: bool)
    ensures
        r == is_plain(text@),
{
    let mut i: usize = 0;
    while i < text.len()
        invariant
            i <= text.len(),
            forall|j: int| 0 <= j < i ==> !is_opener(#[trigger] text@[j]),
            forall|j: int| 0 <= j < i - 1 ==> !(#[trigger] text@[j] == '-' && text@[j + 1] == '-'),
        decreases text.len() - i,
    {
        let c = text[i];
        if c == '\\' || c == '"' || c == '`' || c == '#' || c == '/' || c == '$' {
            assert(is_opener(text@[i as int]));
            return false;
        }
        if i > 0 && c == '-' && text[i - 1] == '-' {
            assert(text@[i - 1] == '-' && text@[i - 1 + 1] == '-');
            return false;
        }
        i = i + 1;
    }
    true
}

/// Decides whether `word` stands at position `p` of `text`. `hidden` tells
/// whether the position is in a string of a plain text.
fn stands_at(text: &Vec<char>, p: usize, word: &Vec<char>, hidden: bool) -> (r: bool)
    requires
        p + word.len() <= text.len(),
        hidden == (is_plain(text@) && ends_in_string(text@.take(p as int))),
    ensures
        r == word_at(text@, p as int, word@),
{
    if hidden {
        return false;
    }
    let mut k: usize = 0;
    while k < word.len()
        invariant
            k <= word.len(),
            p + word.len() <= text.len(),
            forall|j: int| 0 <= j < k ==> is_letter(#[trigger] text@[p + j], word@[j]),
        decreases word.len() - k,
    {
        if !letter_is(text[p + k], word[k]) {
            assert(!is_letter(text@[p + k], word@[k as int]));
            return false;
        }
        k = k + 1;
    }
    p + word.len() == text.len() || !goes_on(text[p + word.len()])
}

/// Decides whether `word` stands somewhere in `text`.
pub fn holds(text: &Vec<char>, word: &Vec<char>) -> (r: bool)
    ensures
        r == holds_word(text@, word@),
{
    if word.len() > text.len() {
        return false;
    }
    let simple = plain(text);
    let last = text.len() - word.len();
    let mut p: usize = 0;
    let mut inside = false;
    assert(text@.take(0) =~= Seq::<char>::empty());
    while p < last
        invariant
            p <= last,
            last + word.len() == text.len(),
            simple == is_plain(text@),
            inside == ends_in_string(text@.take(p as int)),
            forall|q: int| 0 <= q < p ==> !word_at(text@, q, word@),
        decreases last - p,
    {
        if stands_at(text, p, word, simple && inside) {
            return true;
        }
        assert(text@.take(p + 1).drop_last() =~= text@.take(p as int));
        assert(text@.take(p + 1).last() == text@[p as int]);
        if text[p] == '\'' {
            inside = !inside;
        }
        p = p + 1;
    }
    stands_at(text, last, word, simple && inside)
}

/// Decides whether a text may be handed to the parser.
pub fn is_parser_safe(sql: &str) -> (r: bool)
    ensures
        r == parser_safe(sql@),
{
    let mut text: Vec<char> = Vec::new();
    for c in it: sql.chars()
        invariant
            it.seq() == sql@,
            text@ == sql@.take(it.index()),
    {
        text.push(c);
        assert(sql@.take(it.index() + 1) =~= sql@.take(it.index()).push(c));
    }
    assert(sql@.take(sql@.len() as int) =~= sql@);
    let div = vec!['d', 'i', 'v'];
    let granted = vec!['g', 'r', 'a', 'n', 't', 'e', 'd'];
    assert(div@ =~= seq!['d', 'i', 'v']);
    assert(granted@ =~= seq!['g', 'r', 'a', 'n', 't', 'e', 'd']);
    !holds(&text, &div) && !holds(&text, &granted)
}

} // verus!
