//! The forward solver: from the four operands of a cypher to its core.
use super::adapters::collect_array;
use super::chain::{
    candidates, is_verdict, lemma_search_unfolds, merged, overflows, search, search_via,
};
use super::operation::{Operation, OperatorSet, Step};
use super::text::{
    chars_of, contains_digit, contains_letter, has_digit, has_letter, lemma_filter_map_full,
    parse_number, parsed_number, split_whitespace, texts, words_of,
};
use super::{char_to_num, letter_number, CORE_LENGTH};
use vstd::prelude::*;
use vstd::slice::slice_subrange;
use vstd::string::StrSliceExecFns;

verus! {

/// Why no core was computed.
#[derive(Debug, Clone, Copy, PartialEq, Eq, Structural)]
pub enum DecryptError {
    /// The input holds neither a letter nor a digit.
    InputEmpty,
    /// A word is not 4 characters long.
    InputWordLen,
    /// The input does not consist of 4 numbers.
    InputNumsLen,
    /// A word holds a character that is not alphabetic.
    InputLetter,
    /// The input holds both letters and digits.
    InputMixed,
    /// No order of the operators is valid on the operands.
    NoSolution,
    /// A product along the way does not fit in 32 bits.
    Overflow,
}

impl DecryptError {
    /// The text of the error.
    pub open spec fn message(self) -> Seq<char> {
        match self {
            DecryptError::InputEmpty => "Invalid characters, expected alphabetic words or numbers"@,
            DecryptError::InputWordLen => "Invalid length, expected 4 character words"@,
            DecryptError::InputNumsLen => "Invalid length, expected 4 distinct numbers"@,
            DecryptError::InputLetter => "Invalid character, expected alphabetic character"@,
            DecryptError::InputMixed => "Found words mixed with numbers"@,
            DecryptError::NoSolution => "No solution found"@,
            DecryptError::Overflow => "Overflow in a multiplication"@,
        }
    }

    /// The text of the error, as a string.
    pub fn to_string(&self) -> (text: String)
        ensures
            text@ == self.message(),
    {
        let text = match self {
            DecryptError::InputEmpty => "Invalid characters, expected alphabetic words or numbers",
            DecryptError::InputWordLen => "Invalid length, expected 4 character words",
            DecryptError::InputNumsLen => "Invalid length, expected 4 distinct numbers",
            DecryptError::InputLetter => "Invalid character, expected alphabetic character",
            DecryptError::InputMixed => "Found words mixed with numbers",
            DecryptError::NoSolution => "No solution found",
            DecryptError::Overflow => "Overflow in a multiplication",
        };
        text.to_owned()
    }
}

/// A word of 4 alphabetic characters.
pub open spec fn is_alphabetic_word(word: Seq<char>) -> bool {
    &&& word.len() == CORE_LENGTH
    &&& forall|i: int| 0 <= i < word.len() ==> letter_number(#[trigger] word[i]) is Some
}

/// The numbers of the letters of a word.
pub open spec fn word_numbers(word: Seq<char>) -> Seq<u32> {
    Seq::new(word.len(), |i: int| letter_number(word[i]).unwrap())
}

/// The core of a word: the word is 4 characters long, its characters are
/// letters, and their numbers are the operands.
pub open spec fn word_core(word: Seq<char>) -> Result<u32, DecryptError> {
    if word.len() != CORE_LENGTH {
        Err(DecryptError::InputWordLen)
    } else if !is_alphabetic_word(word) {
        Err(DecryptError::InputLetter)
    } else {
        core_of(word_numbers(word))
    }
}

/// The case of its letters does not change the core of a word: two words
/// of 4 letters with the same numbers have the same core.
pub proof fn lemma_word_core_ignores_case(word: Seq<char>, other: Seq<char>)
    requires
        is_alphabetic_word(word),
        is_alphabetic_word(other),
        forall|i: int| 0 <= i < word.len() ==> letter_number(word[i]) == letter_number(other[i]),
    ensures
        word_core(word) == word_core(other),
        word_core(word) == core_of(word_numbers(word)),
{
    assert(word_numbers(word) =~= word_numbers(other));
}

/// The numbers of the alphabetic characters of a text, in order.
fn letter_numbers(text: &str) -> (numbers: Vec<u32>)
    ensures
        numbers@ == text@.filter_map(|c: char| letter_number(c)),
{
    let chars = chars_of(text);
    let ghost number = |c: char| letter_number(c);
    let mut numbers: Vec<u32> = Vec::new();
    let mut index: usize = 0;
    while index < chars.len()
        invariant
            chars@ == text@,
            index <= chars.len(),
            number == |c: char| letter_number(c),
            numbers@ == text@.take(index as int).filter_map(number),
        decreases chars.len() - index,
    {
        proof {
            text@.lemma_filter_map_take_succ(number, index as int);
        }
        if let Some(num) = char_to_num(chars[index]) {
            numbers.push(num);
        }
        index += 1;
    }
    assert(text@.take(index as int) == text@);
    numbers
}

/// Computes the numeric core from the input 4-letter `word`.
///
/// Input `word` must be a 4 alphabetic character string.
/// Both uppercase and lowercase are allowed and produce the same result.
///
/// # Errors
/// - `InputWordLen`: the word is not 4 characters long
/// - `InputLetter`: a character of the word is not alphabetic
/// - `NoSolution`, `Overflow`: as for [`decrypt_numbers`]
pub fn decrypt_word(word: &str) -> (found: Result<u32, DecryptError>)
    ensures
        found == word_core(word@),
{
    if word.unicode_len() != CORE_LENGTH {
        return Err(DecryptError::InputWordLen);
    }
    let letters = letter_numbers(word);
    proof {
        let number = |c: char| letter_number(c);
        lemma_filter_map_full(word@, number);
        if is_alphabetic_word(word@) {
            assert(letters@ =~= word_numbers(word@));
        }
    }
    match collect_array(letters) {
        Some(numbers) => decrypt_numbers(numbers),
        None => Err(DecryptError::InputLetter),
    }
}

/// The core of the 4 operands `numbers`: the verdict of the search that
/// starts from the first of them and has the other three and all three
/// operators left.
pub open spec fn core_of(numbers: Seq<u32>) -> Result<u32, DecryptError> {
    search(numbers[0], numbers.drop_first(), Set::full())
}

/// Computes the numeric core from the 4 input `numbers`.
///
/// # Errors
/// - `NoSolution`: no order of the operators is valid on the numbers
/// - `Overflow`: a product along some order does not fit in 32 bits
pub fn decrypt_numbers(numbers: [u32; CORE_LENGTH]) -> (found: Result<u32, DecryptError>)
    ensures
        found == core_of(numbers@),
        is_verdict(
            found,
            overflows(numbers[0], numbers@.drop_first(), Set::full()),
            candidates(numbers[0], numbers@.drop_first(), Set::full()),
        ),
{
    let first = numbers[0];
    let remaining_3 = slice_subrange(numbers.as_slice(), 1, CORE_LENGTH);
    decrypt_recursive(first, remaining_3, OperatorSet::all())
}

/// What a line of input asks to decrypt.
#[derive(Debug)]
pub enum DecryptInput {
    /// One or more words.
    Words(Vec<String>),
    /// The 4 operands of one cypher.
    Numbers([u32; CORE_LENGTH]),
}

/// What a line of input asks to decrypt, as mathematical values.
pub enum Cyphers {
    /// One or more words.
    Words(Seq<Seq<char>>),
    /// The 4 operands of one cypher.
    Numbers(Seq<u32>),
}

impl View for DecryptInput {
    type V = Cyphers;

    open spec fn view(&self) -> Cyphers {
        match self {
            DecryptInput::Words(words) => Cyphers::Words(texts(words@)),
            DecryptInput::Numbers(numbers) => Cyphers::Numbers(numbers@),
        }
    }
}

impl Clone for DecryptInput {
    fn clone(&self) -> (copy: Self)
        ensures
            copy@ == self@,
    {
        match self {
            DecryptInput::Words(words) => {
                let mut copies: Vec<String> = Vec::new();
                let mut index: usize = 0;
                while index < words.len()
                    invariant
                        index <= words.len(),
                        texts(copies@) == texts(words@).take(index as int),
                    decreases words.len() - index,
                {
                    let ghost before = texts(copies@);
                    copies.push(words[index].clone());
                    assert(texts(copies@) == before.push(words@[index as int]@));
                    index += 1;
                }
                assert(texts(words@).take(index as int) == texts(words@));
                DecryptInput::Words(copies)
            },
            DecryptInput::Numbers(numbers) => DecryptInput::Numbers(*numbers),
        }
    }
}

/// Every word of the list writes a number.
pub open spec fn are_numbers(words: Seq<Seq<char>>) -> bool {
    forall|i: int| 0 <= i < words.len() ==> parsed_number(#[trigger] words[i]) is Some
}

/// The numbers that the words of the list write.
pub open spec fn numbers_of(words: Seq<Seq<char>>) -> Seq<u32> {
    Seq::new(words.len(), |i: int| parsed_number(words[i]).unwrap())
}

impl DecryptInput {
    /// What a text asks to decrypt.
    ///
    /// A text with digits and without letters is 4 numbers between
    /// whitespace; a text with letters and without digits is a list of words
    /// between whitespace. Any other text is in error.
    pub open spec fn classified(input: Seq<char>) -> Result<Cyphers, DecryptError> {
        let words = words_of(input);
        if has_digit(input) && has_letter(input) {
            Err(DecryptError::InputMixed)
        } else if has_digit(input) {
            if words.len() == CORE_LENGTH && are_numbers(words) {
                Ok(Cyphers::Numbers(numbers_of(words)))
            } else {
                Err(DecryptError::InputNumsLen)
            }
        } else if has_letter(input) {
            Ok(Cyphers::Words(words))
        } else {
            Err(DecryptError::InputEmpty)
        }
    }

    /// Classifies a line of input.
    ///
    /// # Errors
    /// - `InputMixed`: the input holds digits and letters
    /// - `InputNumsLen`: the input holds digits, and is not 4 numbers
    /// - `InputEmpty`: the input holds neither a digit nor a letter
    pub fn parse(input: &str) -> (parsed: Result<Self, DecryptError>)
        ensures
            match parsed {
                Ok(cyphers) => DecryptInput::classified(input@) == Ok::<Cyphers, DecryptError>(
                    cyphers@,
                ),
                Err(error) => DecryptInput::classified(input@) == Err::<Cyphers, DecryptError>(
                    error,
                ),
            },
    {
        let chars = chars_of(input);
        let is_digits = contains_digit(chars.as_slice());
        let is_alphabetic = contains_letter(chars.as_slice());
        let words = split_whitespace(input);
        match (is_digits, is_alphabetic) {
            (true, false) => {
                if words.len() != CORE_LENGTH {
                    return Err(DecryptError::InputNumsLen);
                }
                let numbers = parsed_numbers(&words);
                proof {
                    let number = |word: Seq<char>| parsed_number(word);
                    let written = texts(words@);
                    lemma_filter_map_full(written, number);
                    if are_numbers(written) {
                        assert(numbers@ =~= numbers_of(written));
                    }
                }
                match collect_array(numbers) {
                    Some(numbers) => Ok(DecryptInput::Numbers(numbers)),
                    None => Err(DecryptError::InputNumsLen),
                }
            },
            (false, true) => Ok(DecryptInput::Words(words)),
            (false, false) => Err(DecryptError::InputEmpty),
            (true, true) => Err(DecryptError::InputMixed),
        }
    }
}

impl core::str::FromStr for DecryptInput {
    type Err = DecryptError;

    fn from_str(input: &str) -> (parsed: Result<Self, DecryptError>)
        ensures
            match parsed {
                Ok(cyphers) => DecryptInput::classified(input@) == Ok::<Cyphers, DecryptError>(
                    cyphers@,
                ),
                Err(error) => DecryptInput::classified(input@) == Err::<Cyphers, DecryptError>(
                    error,
                ),
            },
    {
        Self::parse(input)
    }
}

/// The numbers that the words write, without the words that write none.
fn parsed_numbers(words: &Vec<String>) -> (numbers: Vec<u32>)
    ensures
        numbers@ == texts(words@).filter_map(|word: Seq<char>| parsed_number(word)),
{
    let ghost written = texts(words@);
    let ghost number = |word: Seq<char>| parsed_number(word);
    let mut numbers: Vec<u32> = Vec::new();
    let mut index: usize = 0;
    while index < words.len()
        invariant
            written == texts(words@),
            index <= words.len(),
            number == |word: Seq<char>| parsed_number(word),
            numbers@ == written.take(index as int).filter_map(number),
        decreases words.len() - index,
    {
        proof {
            written.lemma_filter_map_take_succ(number, index as int);
        }
        if let Some(num) = parse_number(words[index].as_str()) {
            numbers.push(num);
        }
        index += 1;
    }
    assert(written.take(index as int) == written);
    numbers
}

/// Brute force decryption.
///
/// Pulls the first remaining number and tries to apply it using every
/// remaining operator; returns the least of what the operators reach.
pub fn decrypt_recursive(acc: u32, numbers: &[u32], ops: OperatorSet) -> (found: Result<
    u32,
    DecryptError,
>)
    ensures
        found == search(acc, numbers@, ops@),
        is_verdict(found, overflows(acc, numbers@, ops@), candidates(acc, numbers@, ops@)),
    decreases numbers.len(), 1nat,
{
    proof {
        lemma_search_unfolds(acc, numbers@, ops@);
    }
    if numbers.len() == 0 {
        return Ok(acc);
    }
    let sub = try_operation(Operation::Sub, acc, numbers, ops);
    let mul = try_operation(Operation::Mul, acc, numbers, ops);
    let div = try_operation(Operation::Div, acc, numbers, ops);
    better(better(sub, mul), div)
}

/// The search along the paths that begin with `op`.
fn try_operation(op: Operation, acc: u32, numbers: &[u32], ops: OperatorSet) -> (found: Result<
    u32,
    DecryptError,
>)
    requires
        numbers.len() > 0,
    ensures
        found == search_via(op, acc, numbers@, ops@),
    decreases numbers.len(), 0nat,
{
    if !ops.contains(op) {
        return Err(DecryptError::NoSolution);
    }
    match op.apply(acc, numbers[0]) {
        Step::Value(total) => {
            let remain = slice_subrange(numbers, 1, numbers.len());
            decrypt_recursive(total, remain, ops.difference(op))
        },
        Step::Invalid => Err(DecryptError::NoSolution),
        Step::Overflow => Err(DecryptError::Overflow),
    }
}

/// Of two verdicts the one that stands for both searches together.
fn better(a: Result<u32, DecryptError>, b: Result<u32, DecryptError>) -> (found: Result<
    u32,
    DecryptError,
>)
    ensures
        found == merged(a, b),
{
    match (a, b) {
        (Err(DecryptError::Overflow), _) => Err(DecryptError::Overflow),
        (_, Err(DecryptError::Overflow)) => Err(DecryptError::Overflow),
        (Ok(x), Ok(y)) => if x <= y {
            Ok(x)
        } else {
            Ok(y)
        },
        (Ok(x), Err(_)) => Ok(x),
        (Err(_), Ok(y)) => Ok(y),
        (Err(e), Err(_)) => Err(e),
    }
}

} // verus!
