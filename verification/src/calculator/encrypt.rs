//! Encrypts what a line of input names: a letter, or, one day, a number.
use super::encryptor::is_encryption;
use super::text::chars_of;
use super::{letter_number, Cypher, CORE_LENGTH};
use vstd::prelude::*;

verus! {

/// The number to encrypt that a line names, or the line that says why it
/// names none: the line is one character, and that character is a letter.
pub open spec fn requested(input: Seq<char>) -> Result<u32, Seq<char>> {
    if input.len() == 0 {
        Err("Invalid input : expected at least one char"@)
    } else if input.len() != 1 {
        Err("Invalid input : expected a single character"@)
    } else {
        match letter_number(input[0]) {
            Some(target) => Ok(target),
            None => Err("Invalid input : expected an alphabetic letter"@),
        }
    }
}

/// The words of a list of cyphers.
pub open spec fn words_in(cyphers: Seq<Cypher>) -> Seq<[char; CORE_LENGTH]> {
    Seq::new(cyphers.len(), |i: int| cyphers[i]->Text_0)
}

/// Every cypher of the list is a word.
pub open spec fn are_texts(cyphers: Seq<Cypher>) -> bool {
    forall|i: int| 0 <= i < cyphers.len() ==> #[trigger] cyphers[i] is Text
}

/// Encryption of a number that is not the number of a letter. Not
/// implemented: every call fails.
pub fn encrypt_number(number: u32) -> (found: Result<Vec<Cypher>, String>)
    ensures
        found matches Err(text) && text@ == "unimplemented"@,
{
    Err("unimplemented".to_owned())
}

/// Every 4-letter word whose core is the letter that `input` names.
pub fn encrypt_letter(input: &str) -> (found: Result<Vec<Cypher>, String>)
    ensures
        match found {
            Ok(cyphers) => requested(input@) matches Ok(target) && are_texts(cyphers@)
                && is_encryption(words_in(cyphers@), target),
            Err(text) => requested(input@) == Err::<u32, Seq<char>>(text@),
        },
{
    let chars = chars_of(input);
    if chars.len() == 0 {
        return Err("Invalid input : expected at least one char".to_owned());
    }
    let c = chars[0];
    if chars.len() != 1 {
        return Err("Invalid input : expected a single character".to_owned());
    }
    match super::encryptor::encrypt_letter(c) {
        Ok(words) => {
            let mut cyphers: Vec<Cypher> = Vec::new();
            let mut index: usize = 0;
            while index < words.len()
                invariant
                    index <= words.len(),
                    cyphers@.len() == index,
                    forall|i: int|
                        0 <= i < index ==> #[trigger] cyphers@[i] == Cypher::Text(words@[i]),
                decreases words.len() - index,
            {
                cyphers.push(Cypher::Text(words[index]));
                index += 1;
            }
            assert(words_in(cyphers@) == words@);
            Ok(cyphers)
        },
        Err(text) => Err(text),
    }
}

} // verus!
