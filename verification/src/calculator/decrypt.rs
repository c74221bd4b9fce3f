//! Decrypts a line of input cypher by cypher, and reports each failure as a
//! line of text.
use super::chain::search;
use super::decryptor::{
    are_numbers, core_of, decrypt_recursive, is_alphabetic_word, numbers_of, word_numbers,
    DecryptError,
};
use super::operation::OperatorSet;
use super::text::{
    ascii_words_of, chars_of, is_ascii_alphabetic, is_whitespace, parse_number,
    parsed_number, split_ascii_whitespace, split_whitespace, texts, words_of,
};
use super::{char_to_num, letter_number, CORE_LENGTH};
use vstd::prelude::*;
use vstd::slice::slice_subrange;
use vstd::string::StringExecFns;

verus! {

/// The text that `{:?}` writes for a string: the string between double
/// quotes, with the characters escaped that Rust escapes.
pub uninterp spec fn debug_text(text: Seq<char>) -> Seq<char>;

/// `format!` with `{:?}` on a string. The text that comes back depends on
/// the characters of the string alone.
#[verifier::external_body]
fn debug_string(text: &str) -> (quoted: String)
    ensures
        quoted@ == debug_text(text@),
{
    format!("{text:?}")
}

/// The operands that a cypher writes: 4 numbers between whitespace, or one
/// word of 4 letters.
pub open spec fn cypher_numbers(cypher: Seq<char>) -> Option<Seq<u32>> {
    let words = words_of(cypher);
    if words.len() == CORE_LENGTH {
        if are_numbers(words) {
            Some(numbers_of(words))
        } else {
            None
        }
    } else if words.len() == 1 && is_alphabetic_word(words[0]) {
        Some(word_numbers(words[0]))
    } else {
        None
    }
}

/// Reads the 4 operands of a cypher.
#[verifier::loop_isolation(false)]
pub fn parse_input(str: &str) -> (numbers: Option<[u32; CORE_LENGTH]>)
    ensures
        match numbers {
            Some(numbers) => cypher_numbers(str@) == Some(numbers@),
            None => cypher_numbers(str@) is None,
        },
{
    let words = split_whitespace(str);
    let ghost written = texts(words@);
    if words.len() == CORE_LENGTH {
        let mut nums = [0u32;CORE_LENGTH];
        let mut index: usize = 0;
        while index < CORE_LENGTH
            invariant
                index <= CORE_LENGTH,
                forall|i: int|
                    #![trigger written[i]]
                    0 <= i < index ==> parsed_number(written[i]) == Some(nums@[i]),
            decreases CORE_LENGTH - index,
        {
            match parse_number(words[index].as_str()) {
                Some(num) => {
                    nums[index] = num;
                },
                None => {
                    assert(parsed_number(written[index as int]) is None);
                    return None;
                },
            }
            index += 1;
        }
        return Some(nums);
    }
    if words.len() != 1 {
        return None;
    }
    let word = words[0].as_str();
    let chars = chars_of(word);
    if chars.len() != CORE_LENGTH {
        return None;
    }
    let mut numbers = [0u32;CORE_LENGTH];
    let mut index: usize = 0;
    while index < CORE_LENGTH
        invariant
            index <= CORE_LENGTH,
            index <= chars.len(),
            forall|i: int|
                #![trigger word@[i]]
                0 <= i < index ==> letter_number(word@[i]) == Some(numbers@[i]),
        decreases CORE_LENGTH - index,
    {
        match char_to_num(chars[index]) {
            Some(num) => {
                numbers[index] = num;
            },
            None => {
                return None;
            },
        }
        index += 1;
    }
    Some(numbers)
}

/// A line of letters and whitespace, with nothing else in it.
pub open spec fn is_text(input: Seq<char>) -> bool {
    forall|i: int|
        0 <= i < input.len() ==> is_ascii_alphabetic(#[trigger] input[i]) || is_whitespace(
            input[i],
        )
}

/// The cyphers of a line: the words of a line of letters and whitespace;
/// any other line is one cypher.
pub open spec fn cyphers_of(input: Seq<char>) -> Seq<Seq<char>> {
    if is_text(input) {
        ascii_words_of(input)
    } else {
        seq![input]
    }
}

/// The core of a cypher, where it has one.
pub open spec fn cypher_core(cypher: Seq<char>) -> Option<u32> {
    match cypher_numbers(cypher) {
        Some(numbers) => match core_of(numbers) {
            Ok(core) => Some(core),
            Err(_) => None,
        },
        None => None,
    }
}

/// The line that reports why the cypher that `quoted` shows has no core.
pub open spec fn failure(error: DecryptError, quoted: Seq<char>) -> Seq<char> {
    match error {
        DecryptError::Overflow => "Overflow for "@ + quoted,
        _ => "No solutions for "@ + quoted,
    }
}

/// Writes the line that reports why the cypher that `quoted` shows has no
/// core.
pub fn failure_text(error: DecryptError, quoted: &str) -> (line: String)
    ensures
        line@ == failure(error, quoted@),
{
    match error {
        DecryptError::Overflow => String::from_str("Overflow for ").concat(quoted),
        _ => String::from_str("No solutions for ").concat(quoted),
    }
}

/// The line that reports a cypher without a core.
pub open spec fn cypher_error(cypher: Seq<char>) -> Option<Seq<char>> {
    match cypher_numbers(cypher) {
        Some(numbers) => match core_of(numbers) {
            Ok(_) => None,
            Err(error) => Some(failure(error, debug_text(cypher))),
        },
        None => Some("Invalid input"@),
    }
}

/// Whether a line holds letters and whitespace alone.
fn is_text_line(input: &str) -> (yes: bool)
    ensures
        yes == is_text(input@),
{
    let chars = chars_of(input);
    let mut index: usize = 0;
    while index < chars.len()
        invariant
            chars@ == input@,
            index <= chars.len(),
            forall|i: int|
                0 <= i < index ==> is_ascii_alphabetic(#[trigger] input@[i]) || is_whitespace(
                    input@[i],
                ),
        decreases chars.len() - index,
    {
        let c = chars[index];
        if !(is_ascii_alphabetic(c) || is_whitespace(c)) {
            return false;
        }
        index += 1;
    }
    true
}

/// Decrypts every cypher of a line.
///
/// Returns the core of each cypher, `None` where it has none, and one line
/// of text for each cypher without a core.
pub fn decrypt(input: &str) -> (decrypted: (Vec<Option<u32>>, Vec<String>))
    ensures
        decrypted.0@ == cyphers_of(input@).map_values(|cypher: Seq<char>| cypher_core(cypher)),
        texts(decrypted.1@) == cyphers_of(input@).filter_map(
            |cypher: Seq<char>| cypher_error(cypher),
        ),
{
    let cyphers = if is_text_line(input) {
        // Cyphertext
        split_ascii_whitespace(input)
    } else {
        // Single numeric core
        let mut single: Vec<String> = Vec::new();
        single.push(input.to_owned());
        single
    };
    let ghost all = cyphers_of(input@);
    let ghost core = |cypher: Seq<char>| cypher_core(cypher);
    let ghost error = |cypher: Seq<char>| cypher_error(cypher);
    let mut cores: Vec<Option<u32>> = Vec::new();
    let mut errors: Vec<String> = Vec::new();
    let mut index: usize = 0;
    while index < cyphers.len()
        invariant
            texts(cyphers@) == all,
            index <= cyphers.len(),
            core == |cypher: Seq<char>| cypher_core(cypher),
            error == |cypher: Seq<char>| cypher_error(cypher),
            cores@ == all.take(index as int).map_values(core),
            texts(errors@) == all.take(index as int).filter_map(error),
        decreases cyphers.len() - index,
    {
        let cypher = cyphers[index].as_str();
        proof {
            all.lemma_filter_map_take_succ(error, index as int);
        }
        match parse_input(cypher) {
            None => {
                errors.push("Invalid input".to_owned());
                cores.push(None);
            },
            Some(numbers) => {
                let remain = slice_subrange(numbers.as_slice(), 1, CORE_LENGTH);
                match solve_recursive(numbers[0], remain, OperatorSet::all()) {
                    Ok(core) => {
                        cores.push(Some(core));
                    },
                    Err(error) => {
                        let quoted = debug_string(cypher);
                        errors.push(failure_text(error, quoted.as_str()));
                        cores.push(None);
                    },
                }
            },
        }
        index += 1;
    }
    assert(all.take(index as int) == all);
    (cores, errors)
}

/// Brute force decryption of the operands that follow an accumulator.
///
/// Pulls the first remaining number and tries to apply it using every
/// remaining operator. There has to be a number to pull.
pub fn solve_recursive(acc: u32, numbers: &[u32], ops: OperatorSet) -> (found: Result<
    u32,
    DecryptError,
>)
    ensures
        found == if numbers@.len() == 0 {
            Err::<u32, DecryptError>(DecryptError::NoSolution)
        } else {
            search(acc, numbers@, ops@)
        },
{
    if numbers.len() == 0 {
        return Err(DecryptError::NoSolution);
    }
    decrypt_recursive(acc, numbers, ops)
}

} // verus!
