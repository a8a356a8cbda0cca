//! Texts as lists of characters, and what is counted in them.

use vstd::prelude::*;
use vstd::std_specs::iter::IteratorSpec;
use vstd::string::*;

verus! {

/// The characters of `text`, in order.
pub fn chars_of(text: &str) -> (r: Vec<char>)
    ensures
        r@ == text@,
{
    let mut out: Vec<char> = Vec::new();
    for c in it: text.chars()
        invariant
            it.seq() == text@,
            out@ == text@.take(it.index() as int),
    {
        out.push(c);
        assert(text@.take(it.index() + 1) =~= text@.take(it.index() as int).push(c));
    }
    assert(text@.take(text@.len() as int) =~= text@);
    out
}

/// Whether a character is white space, as Unicode has it.
pub open spec fn is_space(c: char) -> bool {
    let cp = c as u32;
    ||| 0x09 <= cp <= 0x0D
    ||| cp == 0x20
    ||| cp == 0x85
    ||| cp == 0xA0
    ||| cp == 0x1680
    ||| 0x2000 <= cp <= 0x200A
    ||| cp == 0x2028
    ||| cp == 0x2029
    ||| cp == 0x202F
    ||| cp == 0x205F
    ||| cp == 0x3000
}

/// Whether a character is a Han ideograph of the basic block or of the
/// extensions A and B.
pub open spec fn is_han(c: char) -> bool {
    let cp = c as u32;
    ||| 0x4E00 <= cp <= 0x9FFF
    ||| 0x3400 <= cp <= 0x4DBF
    ||| 0x20000 <= cp <= 0x2A6DF
}

/// Whether a word starts at place `i`: a character that is no white space,
/// at the start or behind white space.
pub open spec fn starts_word(text: Seq<char>, i: int) -> bool {
    !is_space(text[i]) && (i == 0 || is_space(text[i - 1]))
}

/// Words that start among the first `upto` characters.
pub open spec fn word_count(text: Seq<char>, upto: int) -> nat
    decreases upto,
{
    if upto <= 0 {
        0
    } else {
        word_count(text, upto - 1) + if starts_word(text, upto - 1) {
            1nat
        } else {
            0nat
        }
    }
}

/// Han ideographs among the first `upto` characters.
pub open spec fn han_count(text: Seq<char>, upto: int) -> nat
    decreases upto,
{
    if upto <= 0 {
        0
    } else {
        han_count(text, upto - 1) + if is_han(text[upto - 1]) {
            1nat
        } else {
            0nat
        }
    }
}

/// Whether `word` stands in `text` at place `i`.
pub open spec fn occurs_at(text: Seq<char>, word: Seq<char>, i: int) -> bool {
    &&& 0 <= i
    &&& i + word.len() <= text.len()
    &&& text.subrange(i, i + word.len()) == word
}

/// Whether `word` stands somewhere in `text`.
pub open spec fn occurs(text: Seq<char>, word: Seq<char>) -> bool {
    exists|i: int| occurs_at(text, word, i)
}

/// Whether a character is white space.
pub fn is_space_char(c: char) -> (r: bool)
    ensures
        r == is_space(c),
{
    let cp = c as u32;
    (0x09 <= cp && cp <= 0x0D) || cp == 0x20 || cp == 0x85 || cp == 0xA0 || cp == 0x1680 || (0x2000
        <= cp && cp <= 0x200A) || cp == 0x2028 || cp == 0x2029 || cp == 0x202F || cp == 0x205F || cp
        == 0x3000
}

/// Whether a character is a Han ideograph.
pub fn is_han_char(c: char) -> (r: bool)
    ensures
        r == is_han(c),
{
    let cp = c as u32;
    (0x4E00 <= cp && cp <= 0x9FFF) || (0x3400 <= cp && cp <= 0x4DBF) || (0x20000 <= cp && cp
        <= 0x2A6DF)
}

/// Number of words in `text`: runs of characters between white space.
pub fn count_words(text: &Vec<char>) -> (r: usize)
    ensures
        r as nat == word_count(text@, text.len() as int),
        r <= text.len(),
{
    let mut words: usize = 0;
    let mut i: usize = 0;
    while i < text.len()
        invariant
            i <= text.len(),
            words <= i,
            words as nat == word_count(text@, i as int),
        decreases text.len() - i,
    {
        if !is_space_char(text[i]) && (i == 0 || is_space_char(text[i - 1])) {
            words = words + 1;
        }
        i = i + 1;
    }
    words
}

/// Number of Han ideographs in `text`.
pub fn count_han(text: &Vec<char>) -> (r: usize)
    ensures
        r as nat == han_count(text@, text.len() as int),
        r <= text.len(),
{
    let mut found: usize = 0;
    let mut i: usize = 0;
    while i < text.len()
        invariant
            i <= text.len(),
            found <= i,
            found as nat == han_count(text@, i as int),
        decreases text.len() - i,
    {
        if is_han_char(text[i]) {
            found = found + 1;
        }
        i = i + 1;
    }
    found
}

/// Whether `c` is one of the characters of `text`.
pub fn has_char(text: &Vec<char>, c: char) -> (r: bool)
    ensures
        r == text@.contains(c),
{
    let mut i: usize = 0;
    while i < text.len()
        invariant
            i <= text.len(),
            forall|j: int| 0 <= j < i ==> text[j] != c,
        decreases text.len() - i,
    {
        if text[i] == c {
            return true;
        }
        i = i + 1;
    }
    false
}

/// Whether `word` stands in `text` at place `i`.
pub fn stands_at(text: &Vec<char>, word: &Vec<char>, i: usize) -> (r: bool)
    ensures
        r == occurs_at(text@, word@, i as int),
{
    if word.len() > text.len() || i > text.len() - word.len() {
        return false;
    }
    let mut k: usize = 0;
    while k < word.len()
        invariant
            k <= word.len(),
            i + word.len() <= text.len(),
            forall|j: int| 0 <= j < k ==> text[i + j] == word[j],
        decreases word.len() - k,
    {
        if text[i + k] != word[k] {
            assert(text@.subrange(i as int, i + word.len())[k as int] == text[i + k]);
            return false;
        }
        k = k + 1;
    }
    assert(text@.subrange(i as int, i + word.len()) =~= word@);
    true
}

/// Whether `word` stands somewhere in `text`.
pub fn has_word(text: &Vec<char>, word: &Vec<char>) -> (r: bool)
    ensures
        r == occurs(text@, word@),
{
    if word.len() > text.len() {
        assert forall|i: int| !occurs_at(text@, word@, i) by {}
        return false;
    }
    if word.len() == 0 {
        assert(text@.subrange(0, 0) =~= word@);
        assert(occurs_at(text@, word@, 0));
        return true;
    }
    let last = text.len() - word.len();
    let mut i: usize = 0;
    while i <= last
        invariant
            i <= last + 1,
            last < usize::MAX,
            last == text.len() - word.len(),
            forall|j: int| 0 <= j < i ==> !occurs_at(text@, word@, j),
        decreases last + 1 - i,
    {
        if stands_at(text, word, i) {
            return true;
        }
        i = i + 1;
    }
    assert forall|j: int| !occurs_at(text@, word@, j) by {}
    false
}

/// Whether `word` stands somewhere in `text`.
pub fn text_has_word(text: &str, word: &str) -> (r: bool)
    ensures
        r == occurs(text@, word@),
{
    let t = chars_of(text);
    let w = chars_of(word);
    has_word(&t, &w)
}

} // verus!
