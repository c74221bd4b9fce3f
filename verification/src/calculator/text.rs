//! Free-form input: kinds of characters, words between whitespace, and
//! decimal numbers.
use vstd::prelude::*;
use vstd::string::StrSliceExecFns;

verus! {

/// An ASCII decimal digit.
pub open spec fn spec_is_ascii_digit(c: char) -> bool {
    '0' <= c <= '9'
}

/// An ASCII letter, in either case.
pub open spec fn spec_is_ascii_alphabetic(c: char) -> bool {
    ('A' <= c <= 'Z') || ('a' <= c <= 'z')
}

/// ASCII whitespace: space, tab, line feed, form feed, carriage return.
pub open spec fn spec_is_ascii_whitespace(c: char) -> bool {
    c == ' ' || c == '\t' || c == '\n' || c == '\u{c}' || c == '\r'
}

/// A character with the Unicode property `White_Space`.
pub open spec fn spec_is_whitespace(c: char) -> bool {
    ||| '\t' <= c <= '\r'
    ||| c == ' '
    ||| c == '\u{85}'
    ||| c == '\u{a0}'
    ||| c == '\u{1680}'
    ||| '\u{2000}' <= c <= '\u{200a}'
    ||| c == '\u{2028}'
    ||| c == '\u{2029}'
    ||| c == '\u{202f}'
    ||| c == '\u{205f}'
    ||| c == '\u{3000}'
}

/// Whether `c` is an ASCII decimal digit.
#[verifier::when_used_as_spec(spec_is_ascii_digit)]
pub fn is_ascii_digit(c: char) -> (yes: bool)
    ensures
        yes == spec_is_ascii_digit(c),
{
    '0' <= c && c <= '9'
}

/// Whether `c` is an ASCII letter.
#[verifier::when_used_as_spec(spec_is_ascii_alphabetic)]
pub fn is_ascii_alphabetic(c: char) -> (yes: bool)
    ensures
        yes == spec_is_ascii_alphabetic(c),
{
    ('A' <= c && c <= 'Z') || ('a' <= c && c <= 'z')
}

/// Whether `c` is ASCII whitespace.
#[verifier::when_used_as_spec(spec_is_ascii_whitespace)]
pub fn is_ascii_whitespace(c: char) -> (yes: bool)
    ensures
        yes == spec_is_ascii_whitespace(c),
{
    c == ' ' || c == '\t' || c == '\n' || c == '\u{c}' || c == '\r'
}

/// Whether `c` is whitespace.
#[verifier::when_used_as_spec(spec_is_whitespace)]
pub fn is_whitespace(c: char) -> (yes: bool)
    ensures
        yes == spec_is_whitespace(c),
{
    ('\t' <= c && c <= '\r') || c == ' ' || c == '\u{85}' || c == '\u{a0}' || c == '\u{1680}' || (
    '\u{2000}' <= c && c <= '\u{200a}') || c == '\u{2028}' || c == '\u{2029}' || c == '\u{202f}'
        || c == '\u{205f}' || c == '\u{3000}'
}

/// Whether `c` ends a word: any whitespace, or ASCII whitespace alone.
pub open spec fn is_separator(c: char, ascii_only: bool) -> bool {
    if ascii_only {
        is_ascii_whitespace(c)
    } else {
        is_whitespace(c)
    }
}

/// `String::push` appends one character to a string.
pub assume_specification[ String::push ](text: &mut String, ch: char)
    ensures
        final(text)@ == old(text)@.push(ch),
;

/// The characters of a string.
pub fn chars_of(text: &str) -> (chars: Vec<char>)
    ensures
        chars@ == text@,
{
    let mut chars: Vec<char> = Vec::new();
    for c in it: text.chars()
        invariant
            it.seq() == text@,
            chars@ == it.seq().take(it.index() as int),
    {
        chars.push(c);
    }
    chars
}

/// Some character of the text is an ASCII digit.
pub open spec fn has_digit(text: Seq<char>) -> bool {
    exists|i: int| 0 <= i < text.len() && is_ascii_digit(#[trigger] text[i])
}

/// Some character of the text is an ASCII letter.
pub open spec fn has_letter(text: Seq<char>) -> bool {
    exists|i: int| 0 <= i < text.len() && is_ascii_alphabetic(#[trigger] text[i])
}

/// Whether some character is an ASCII digit.
pub fn contains_digit(chars: &[char]) -> (found: bool)
    ensures
        found == has_digit(chars@),
{
    let mut index: usize = 0;
    while index < chars.len()
        invariant
            index <= chars.len(),
            forall|i: int| 0 <= i < index ==> !is_ascii_digit(#[trigger] chars@[i]),
        decreases chars.len() - index,
    {
        if is_ascii_digit(chars[index]) {
            return true;
        }
        index += 1;
    }
    false
}

/// Whether some character is an ASCII letter.
pub fn contains_letter(chars: &[char]) -> (found: bool)
    ensures
        found == has_letter(chars@),
{
    let mut index: usize = 0;
    while index < chars.len()
        invariant
            index <= chars.len(),
            forall|i: int| 0 <= i < index ==> !is_ascii_alphabetic(#[trigger] chars@[i]),
        decreases chars.len() - index,
    {
        if is_ascii_alphabetic(chars[index]) {
            return true;
        }
        index += 1;
    }
    false
}

/// The word that ends here, if one is under way.
pub open spec fn ended(word: Seq<char>) -> Seq<Seq<char>> {
    if word.len() == 0 {
        Seq::empty()
    } else {
        seq![word]
    }
}

/// The words that are still to come when `word` holds the characters read
/// since the last separator and `text` is what is left to read.
pub open spec fn words_after(word: Seq<char>, text: Seq<char>, ascii_only: bool) -> Seq<Seq<char>>
    decreases text.len(),
{
    if text.len() == 0 {
        ended(word)
    } else if is_separator(text[0], ascii_only) {
        ended(word) + words_after(Seq::empty(), text.drop_first(), ascii_only)
    } else {
        words_after(word.push(text[0]), text.drop_first(), ascii_only)
    }
}

/// The words of a text: its longest runs of characters that are not
/// whitespace, in the order in which they stand.
pub open spec fn words_of(text: Seq<char>) -> Seq<Seq<char>> {
    words_after(Seq::empty(), text, false)
}

/// The words of a text between ASCII whitespace.
pub open spec fn ascii_words_of(text: Seq<char>) -> Seq<Seq<char>> {
    words_after(Seq::empty(), text, true)
}

/// A text that holds at least one character and no separator.
pub open spec fn is_word(word: Seq<char>, ascii_only: bool) -> bool {
    &&& word.len() > 0
    &&& forall|i: int| 0 <= i < word.len() ==> !is_separator(#[trigger] word[i], ascii_only)
}

/// Splitting gives words: none of them is empty, and none holds a
/// separator. A text that is a word is split into itself.
pub proof fn lemma_words_are_words(text: Seq<char>, ascii_only: bool)
    ensures
        forall|i: int|
            0 <= i < words_after(Seq::empty(), text, ascii_only).len() ==> is_word(
                #[trigger] words_after(Seq::empty(), text, ascii_only)[i],
                ascii_only,
            ),
        is_word(text, ascii_only) ==> words_after(Seq::empty(), text, ascii_only) == seq![text],
{
    lemma_words_after(Seq::empty(), text, ascii_only);
}

/// The words that are still to come are words, as long as the word under
/// way holds no separator; where no separator is left to read, the word under
/// way and what is left are one word.
proof fn lemma_words_after(word: Seq<char>, text: Seq<char>, ascii_only: bool)
    requires
        forall|i: int| 0 <= i < word.len() ==> !is_separator(#[trigger] word[i], ascii_only),
    ensures
        forall|i: int|
            0 <= i < words_after(word, text, ascii_only).len() ==> is_word(
                #[trigger] words_after(word, text, ascii_only)[i],
                ascii_only,
            ),
        is_word(word + text, ascii_only) ==> words_after(word, text, ascii_only) == seq![
            word + text,
        ],
    decreases text.len(),
{
    let all = words_after(word, text, ascii_only);
    let rest = text.drop_first();
    if text.len() == 0 {
        assert(word + text == word);
    } else if is_separator(text[0], ascii_only) {
        lemma_words_after(Seq::empty(), rest, ascii_only);
        assert((word + text)[word.len() as int] == text[0]);
        assert(all == ended(word) + words_after(Seq::empty(), rest, ascii_only));
    } else {
        let longer = word.push(text[0]);
        lemma_words_after(longer, rest, ascii_only);
        assert(longer + rest == word + text);
        assert(all == words_after(longer, rest, ascii_only));
    }
}

/// The texts of a list of strings.
pub open spec fn texts(words: Seq<String>) -> Seq<Seq<char>> {
    Seq::new(words.len(), |i: int| words[i]@)
}

/// Splits a string by whitespace.
pub fn split_whitespace(text: &str) -> (words: Vec<String>)
    ensures
        texts(words@) == words_of(text@),
{
    split(text, false)
}

/// Splits a string by ASCII whitespace.
pub fn split_ascii_whitespace(text: &str) -> (words: Vec<String>)
    ensures
        texts(words@) == ascii_words_of(text@),
{
    split(text, true)
}

/// Splits a string by whitespace of one of the two kinds.
fn split(text: &str, ascii_only: bool) -> (words: Vec<String>)
    ensures
        texts(words@) == words_after(Seq::empty(), text@, ascii_only),
{
    let chars = chars_of(text);
    let mut words: Vec<String> = Vec::new();
    let mut start: usize = 0;
    let mut index: usize = 0;
    assert(text@.subrange(0, 0) == Seq::<char>::empty());
    assert(text@.skip(0) == text@);
    while index < chars.len()
        invariant
            chars@ == text@,
            start <= index <= chars.len(),
            words_after(Seq::empty(), text@, ascii_only) == texts(words@) + words_after(
                text@.subrange(start as int, index as int),
                text@.skip(index as int),
                ascii_only,
            ),
        decreases chars.len() - index,
    {
        let c = chars[index];
        let ghost word = text@.subrange(start as int, index as int);
        let ghost rest = text@.skip(index as int);
        assert(rest.drop_first() == text@.skip(index + 1));
        let separator = if ascii_only {
            is_ascii_whitespace(c)
        } else {
            is_whitespace(c)
        };
        if separator {
            if start < index {
                words.push(text.substring_char(start, index).to_owned());
            }
            start = index + 1;
            assert(text@.subrange(start as int, index + 1) == Seq::<char>::empty());
        } else {
            assert(text@.subrange(start as int, index + 1) == word.push(c));
        }
        index += 1;
    }
    if start < index {
        words.push(text.substring_char(start, index).to_owned());
    }
    words
}

/// A text without the whitespace that it begins with.
pub open spec fn trimmed_start(text: Seq<char>) -> Seq<char>
    decreases text.len(),
{
    if text.len() > 0 && is_whitespace(text[0]) {
        trimmed_start(text.drop_first())
    } else {
        text
    }
}

/// A text without the whitespace that it ends with.
pub open spec fn trimmed_end(text: Seq<char>) -> Seq<char>
    decreases text.len(),
{
    if text.len() > 0 && is_whitespace(text.last()) {
        trimmed_end(text.drop_last())
    } else {
        text
    }
}

/// A text without the whitespace at its two ends.
pub open spec fn trimmed(text: Seq<char>) -> Seq<char> {
    trimmed_end(trimmed_start(text))
}

/// A trimmed text neither begins nor ends with whitespace, so that trimming
/// it again changes nothing.
pub proof fn lemma_trimmed_twice(text: Seq<char>)
    ensures
        trimmed(text).len() > 0 ==> !is_whitespace(trimmed(text)[0]) && !is_whitespace(
            trimmed(text).last(),
        ),
        trimmed(trimmed(text)) == trimmed(text),
{
    let started = trimmed_start(text);
    lemma_trimmed_start(text);
    lemma_trimmed_end(started);
}

/// What is left of a text when the whitespace at its beginning is gone does
/// not begin with whitespace.
proof fn lemma_trimmed_start(text: Seq<char>)
    ensures
        trimmed_start(text).len() > 0 ==> !is_whitespace(trimmed_start(text)[0]),
    decreases text.len(),
{
    if text.len() > 0 && is_whitespace(text[0]) {
        lemma_trimmed_start(text.drop_first());
    }
}

/// What is left of a text when the whitespace at its end is gone is a
/// beginning of the text that does not end with whitespace.
proof fn lemma_trimmed_end(text: Seq<char>)
    ensures
        trimmed_end(text).len() > 0 ==> !is_whitespace(trimmed_end(text).last()),
        trimmed_end(text).len() <= text.len(),
        trimmed_end(text) == text.take(trimmed_end(text).len() as int),
    decreases text.len(),
{
    if text.len() > 0 && is_whitespace(text.last()) {
        lemma_trimmed_end(text.drop_last());
    }
}

/// The text between the whitespace at the two ends of a string.
pub fn trim(text: &str) -> (inner: String)
    ensures
        inner@ == trimmed(text@),
{
    let chars = chars_of(text);
    let mut start: usize = 0;
    assert(text@.skip(0) == text@);
    while start < chars.len() && is_whitespace(chars[start])
        invariant
            chars@ == text@,
            start <= chars.len(),
            trimmed_start(text@) == trimmed_start(text@.skip(start as int)),
        decreases chars.len() - start,
    {
        assert(text@.skip(start as int).drop_first() == text@.skip(start + 1));
        start += 1;
    }
    let ghost rest = text@.skip(start as int);
    let mut end: usize = chars.len();
    while end > start && is_whitespace(chars[end - 1])
        invariant
            chars@ == text@,
            start <= end <= chars.len(),
            trimmed_end(rest) == trimmed_end(text@.subrange(start as int, end as int)),
        decreases end,
    {
        assert(text@.subrange(start as int, end as int).drop_last() == text@.subrange(
            start as int,
            end - 1,
        ));
        end -= 1;
    }
    text.substring_char(start, end).to_owned()
}

/// Mapping the items of a sequence and dropping those that give nothing
/// keeps the length exactly when every item gives something; the values then
/// stand where their items stood.
pub proof fn lemma_filter_map_full<A, B>(items: Seq<A>, f: spec_fn(A) -> Option<B>)
    ensures
        items.filter_map(f).len() <= items.len(),
        items.filter_map(f).len() == items.len() <==> forall|i: int|
            #![trigger items[i]]
            0 <= i < items.len() ==> f(items[i]) is Some,
        items.filter_map(f).len() == items.len() ==> forall|i: int|
            #![trigger items[i]]
            0 <= i < items.len() ==> Some(items.filter_map(f)[i]) == f(items[i]),
    decreases items.len(),
{
    if items.len() > 0 {
        let before = items.drop_last();
        lemma_filter_map_full(before, f);
        if before.filter_map(f).len() == before.len() && f(items.last()) is Some {
            assert forall|i: int| #![trigger items[i]] 0 <= i < items.len() implies f(
                items[i],
            ) is Some && Some(items.filter_map(f)[i]) == f(items[i]) by {
                if i < before.len() {
                    assert(items[i] == before[i]);
                }
            }
        }
    }
}

/// The value of a decimal digit; 0 for any other character.
pub open spec fn digit_value(c: char) -> nat {
    if is_ascii_digit(c) {
        (c as nat - '0' as nat) as nat
    } else {
        0
    }
}

/// The number that a sequence of decimal digits writes.
pub open spec fn digits_value(digits: Seq<char>) -> nat
    decreases digits.len(),
{
    if digits.len() == 0 {
        0
    } else {
        digits_value(digits.drop_last()) * 10 + digit_value(digits.last())
    }
}

/// At least one character, and nothing but decimal digits.
pub open spec fn is_digits(digits: Seq<char>) -> bool {
    &&& digits.len() > 0
    &&& forall|i: int| 0 <= i < digits.len() ==> is_ascii_digit(#[trigger] digits[i])
}

/// A word without the plus sign that may stand before its digits.
pub open spec fn unsigned_part(word: Seq<char>) -> Seq<char> {
    if word.len() > 0 && word[0] == '+' {
        word.drop_first()
    } else {
        word
    }
}

/// The number that a word writes in decimal: an optional `+`, then digits
/// alone, at least one of them, with a value that fits in 32 bits.
pub open spec fn parsed_number(word: Seq<char>) -> Option<u32> {
    let digits = unsigned_part(word);
    if is_digits(digits) && digits_value(digits) <= u32::MAX {
        Some(digits_value(digits) as u32)
    } else {
        None
    }
}

/// A number is at least what any beginning of its digits writes.
proof fn lemma_digits_value_grows(digits: Seq<char>, len: int)
    requires
        0 <= len <= digits.len(),
    ensures
        digits_value(digits.take(len)) <= digits_value(digits),
    decreases digits.len(),
{
    if len < digits.len() {
        lemma_digits_value_grows(digits.drop_last(), len);
        assert(digits.drop_last().take(len) == digits.take(len));
    } else {
        assert(digits.take(len) == digits);
    }
}

/// Reads a decimal number.
pub fn parse_number(word: &str) -> (number: Option<u32>)
    ensures
        number == parsed_number(word@),
{
    let chars = chars_of(word);
    let first: usize = if chars.len() > 0 && chars[0] == '+' {
        1
    } else {
        0
    };
    let ghost digits = unsigned_part(word@);
    if first == chars.len() {
        return None;
    }
    let mut value: u32 = 0;
    let mut index: usize = first;
    while index < chars.len()
        invariant
            chars@ == word@,
            digits == word@.skip(first as int),
            digits == unsigned_part(word@),
            first <= index <= chars.len(),
            value == digits_value(digits.take(index - first)),
            forall|i: int| 0 <= i < index - first ==> is_ascii_digit(#[trigger] digits[i]),
        decreases chars.len() - index,
    {
        let c = chars[index];
        assert(digits[index - first] == c);
        if !is_ascii_digit(c) {
            return None;
        }
        let digit = c as u32 - '0' as u32;
        proof {
            let longer = digits.take(index - first + 1);
            assert(longer.drop_last() == digits.take(index - first));
            lemma_digits_value_grows(digits, index - first + 1);
        }
        value = match value.checked_mul(10) {
            Some(tens) => match tens.checked_add(digit) {
                Some(sum) => sum,
                None => { return None; },
            },
            None => { return None; },
        };
        index += 1;
    }
    assert(digits.take(index - first) == digits);
    Some(value)
}

/// The character of a decimal digit.
pub open spec fn digit_char(digit: nat) -> char {
    ('0' as nat + digit) as char
}

/// A number written in decimal, without a sign and without leading zeros.
pub open spec fn decimal(number: nat) -> Seq<char>
    decreases number,
{
    if number < 10 {
        seq![digit_char(number)]
    } else {
        decimal(number / 10).push(digit_char(number % 10))
    }
}

/// What is written in decimal reads as the number that was written.
pub proof fn lemma_decimal_reads_back(number: u32)
    ensures
        parsed_number(decimal(number as nat)) == Some(number),
{
    lemma_decimal_digits(number as nat);
}

/// A number written in decimal is digits alone, and they have its value.
proof fn lemma_decimal_digits(number: nat)
    ensures
        is_digits(decimal(number)),
        digits_value(decimal(number)) == number,
        unsigned_part(decimal(number)) == decimal(number),
    decreases number,
{
    let written = decimal(number);
    if number >= 10 {
        let before = decimal(number / 10);
        lemma_decimal_digits(number / 10);
        assert(written.drop_last() == before);
        assert(forall|i: int| 0 <= i < written.len() ==> is_ascii_digit(#[trigger] written[i]));
    } else {
        assert(digits_value(written.drop_last()) == 0);
    }
}

/// Writes a number in decimal behind a text.
pub fn push_decimal(text: &mut String, number: u64)
    ensures
        final(text)@ == old(text)@ + decimal(number as nat),
    decreases number,
{
    if number >= 10 {
        push_decimal(text, number / 10);
    }
    let digit: u8 = (number % 10) as u8;
    text.push((48 + digit) as char);
}

/// A number written in decimal.
pub fn number_text(number: u32) -> (text: String)
    ensures
        text@ == decimal(number as nat),
{
    let mut text = String::new();
    push_decimal(&mut text, number as u64);
    text
}

/// The text of one character.
pub fn char_text(c: char) -> (text: String)
    ensures
        text@ == seq![c],
{
    let mut text = String::new();
    text.push(c);
    text
}

} // verus!
