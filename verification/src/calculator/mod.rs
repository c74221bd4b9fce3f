//! Letters, their numbers, and the modules of the solver.
pub mod adapters;
pub mod chain;
pub mod decrypt;
pub mod decryptor;
pub mod encrypt;
pub mod encryptor;
pub mod operation;
pub mod text;

use core::ops::RangeInclusive;
use core::str::FromStr;
use vstd::prelude::*;
use vstd::std_specs::convert::{FromSpecImpl, TryFromSpecImpl};
use vstd::string::StrSliceExecFns;

verus! {

/// A cypher is composed of 4 operands.
pub const CORE_LENGTH: usize = 4;

/// The number of the first letter of the alphabet.
pub const ALPHABET_FIRST: u32 = 1;

/// The number of the last letter of the alphabet.
pub const ALPHABET_LAST: u32 = 26;

/// Every letter in the range `'A'..='Z'` converted to cypher numbers.
pub fn alphabet() -> (numbers: RangeInclusive<u32>)
    ensures
        numbers@.start == ALPHABET_FIRST,
        numbers@.end == ALPHABET_LAST,
        !numbers@.exhausted,
{
    ALPHABET_FIRST..=ALPHABET_LAST
}

/// The number of an alphabetic character: `'A'` and `'a'` are 1, `'Z'` and
/// `'z'` are 26. No other character has a number.
pub open spec fn letter_number(c: char) -> Option<u32> {
    if 'A' <= c <= 'Z' {
        Some((c as u32 - 'A' as u32 + 1) as u32)
    } else if 'a' <= c <= 'z' {
        Some((c as u32 - 'a' as u32 + 1) as u32)
    } else {
        None
    }
}

/// The uppercase character of a number of the alphabet.
pub open spec fn number_letter(num: u32) -> Option<char> {
    if ALPHABET_FIRST <= num <= ALPHABET_LAST {
        Some(('A' as u32 + num - 1) as char)
    } else {
        None
    }
}

/// The uppercase form of an alphabetic character.
pub open spec fn uppercase_letter(c: char) -> Option<char> {
    match letter_number(c) {
        Some(num) => number_letter(num),
        None => None,
    }
}

/// Maps `'A'..='Z'` and `'a'..='z'` to `1..=26`.
pub fn char_to_num(c: char) -> (num: Option<u32>)
    ensures
        num == letter_number(c),
{
    if 'A' <= c && c <= 'Z' {
        Some(c as u32 - 'A' as u32 + 1)
    } else if 'a' <= c && c <= 'z' {
        Some(c as u32 - 'a' as u32 + 1)
    } else {
        None
    }
}

/// Maps `1..=26` to `'A'..='Z'`.
pub fn num_to_char(num: u32) -> (c: Option<char>)
    ensures
        c == number_letter(num),
{
    if ALPHABET_FIRST <= num && num <= ALPHABET_LAST {
        let code: u8 = (num + 64) as u8;
        Some(code as char)
    } else {
        None
    }
}

/// Letters and numbers are two names for the same 26 values: the number of
/// an uppercase letter gives that letter back, and a lowercase letter has the
/// number of its uppercase form.
pub proof fn lemma_letter_round_trip(c: char)
    requires
        'A' <= c <= 'Z',
    ensures
        letter_number(c) matches Some(num) && number_letter(num) == Some(c),
        letter_number((c as u32 + 32) as char) == letter_number(c),
        'a' <= (c as u32 + 32) as char <= 'z',
{
}

/// Every number of the alphabet is the number of the letter that it gives.
pub proof fn lemma_number_round_trip(num: u32)
    requires
        ALPHABET_FIRST <= num <= ALPHABET_LAST,
    ensures
        number_letter(num) matches Some(c) && 'A' <= c <= 'Z' && letter_number(c) == Some(num),
{
}

/// The number of a letter is a number of the alphabet, whatever the case.
pub proof fn lemma_letter_number_in_alphabet(c: char)
    ensures
        letter_number(c) matches Some(num) ==> ALPHABET_FIRST <= num <= ALPHABET_LAST,
{
}

/// A cypher, in one of its two forms.
#[derive(Debug, Clone, Copy, PartialEq, Eq)]
pub enum Cypher {
    /// A word of 4 letters.
    Text([char; CORE_LENGTH]),
    /// 4 numbers.
    Numbers([u32; CORE_LENGTH]),
}

/// What a string that does not name a letter gives.
#[derive(Debug, Clone, Copy, PartialEq, Eq, Structural)]
pub struct ParseLetterError;

impl ParseLetterError {
    /// The text of the error.
    pub fn to_string(&self) -> (text: String)
        ensures
            text@ == "Invalid input: expected an alphabetic letter"@,
    {
        "Invalid input: expected an alphabetic letter".to_owned()
    }
}

/// A letter of the alphabet, kept as its uppercase character.
#[derive(Debug, Clone, Copy, PartialEq, Eq, PartialOrd, Ord)]
pub struct Letter(char);

impl View for Letter {
    type V = char;

    /// The uppercase character of the letter.
    closed spec fn view(&self) -> char {
        self.0
    }
}

impl Letter {
    #[verifier::type_invariant]
    closed spec fn is_uppercase(self) -> bool {
        'A' <= self.0 <= 'Z'
    }

    /// The letter whose uppercase character is `c`.
    pub closed spec fn of(c: char) -> Letter {
        Letter(c)
    }

    /// The letter of an alphabetic character, in either case.
    pub open spec fn of_char(c: char) -> Option<Letter> {
        match uppercase_letter(c) {
            Some(upper) => Some(Letter::of(upper)),
            None => None,
        }
    }

    /// The letter of a number of the alphabet.
    pub open spec fn of_num(num: u32) -> Option<Letter> {
        match number_letter(num) {
            Some(upper) => Some(Letter::of(upper)),
            None => None,
        }
    }

    /// A letter is known by its character: two letters are equal exactly
    /// if their characters are, which is if their numbers are.
    pub proof fn lemma_known_by_character(a: Letter, b: Letter)
        ensures
            a == b <==> a@ == b@,
            Letter::of(a@) == a,
    {
    }

    /// The character of the letter of `c` is `c`.
    pub proof fn lemma_of_view(c: char)
        ensures
            Letter::of(c)@ == c,
    {
    }

    /// The letter of `c`, which may be uppercase or lowercase; `None` if `c` is
    /// not alphabetic.
    pub fn try_from_char(c: char) -> (letter: Option<Self>)
        ensures
            letter == Letter::of_char(c),
            letter matches Some(l) ==> Some(l@) == uppercase_letter(c),
    {
        if 'A' <= c && c <= 'Z' {
            Some(Self(c))
        } else if 'a' <= c && c <= 'z' {
            let code: u8 = (c as u32 - 32) as u8;
            Some(Self(code as char))
        } else {
            None
        }
    }

    /// The letter of `num`; `None` if `num` is not in the alphabet.
    pub fn try_from_num(num: u32) -> (letter: Option<Self>)
        ensures
            letter == Letter::of_num(num),
            letter matches Some(l) ==> Some(l@) == number_letter(num),
    {
        match num_to_char(num) {
            Some(c) => Some(Self(c)),
            None => None,
        }
    }

    /// The letter that the text names: the text is one alphabetic character.
    pub open spec fn parsed(text: Seq<char>) -> Result<Letter, ParseLetterError> {
        if text.len() == 1 {
            match Letter::of_char(text[0]) {
                Some(letter) => Ok(letter),
                None => Err(ParseLetterError),
            }
        } else {
            Err(ParseLetterError)
        }
    }

    /// The number of the letter, from 1 for `A` to 26 for `Z`.
    pub fn to_num(self) -> (num: u32)
        ensures
            Some(num) == letter_number(self@),
            ALPHABET_FIRST <= num <= ALPHABET_LAST,
    {
        proof {
            use_type_invariant(self);
        }
        1 + self.0 as u32 - 'A' as u32
    }

    /// The uppercase character of the letter.
    pub fn to_char(self) -> (c: char)
        ensures
            c == self@,
            'A' <= c <= 'Z',
    {
        proof {
            use_type_invariant(self);
        }
        self.0
    }
}

impl TryFrom<u32> for Letter {
    type Error = ParseLetterError;

    fn try_from(value: u32) -> (letter: Result<Self, ParseLetterError>) {
        match Self::try_from_num(value) {
            Some(letter) => Ok(letter),
            None => Err(ParseLetterError),
        }
    }
}

impl TryFromSpecImpl<u32> for Letter {
    open spec fn obeys_try_from_spec() -> bool {
        true
    }

    open spec fn try_from_spec(value: u32) -> Result<Self, ParseLetterError> {
        match Letter::of_num(value) {
            Some(letter) => Ok(letter),
            None => Err(ParseLetterError),
        }
    }
}

impl TryFrom<char> for Letter {
    type Error = ParseLetterError;

    fn try_from(c: char) -> (letter: Result<Self, ParseLetterError>) {
        match Self::try_from_char(c) {
            Some(letter) => Ok(letter),
            None => Err(ParseLetterError),
        }
    }
}

impl TryFromSpecImpl<char> for Letter {
    open spec fn obeys_try_from_spec() -> bool {
        true
    }

    open spec fn try_from_spec(c: char) -> Result<Self, ParseLetterError> {
        match Letter::of_char(c) {
            Some(letter) => Ok(letter),
            None => Err(ParseLetterError),
        }
    }
}

impl FromStr for Letter {
    type Err = ParseLetterError;

    /// The letter that a string of one alphabetic character names.
    fn from_str(s: &str) -> (letter: Result<Self, ParseLetterError>)
        ensures
            letter == Letter::parsed(s@),
    {
        if s.unicode_len() != 1 {
            return Err(ParseLetterError);
        }
        match Self::try_from_char(s.get_char(0)) {
            Some(letter) => Ok(letter),
            None => Err(ParseLetterError),
        }
    }
}

impl From<Letter> for char {
    fn from(value: Letter) -> (c: char) {
        value.to_char()
    }
}

impl FromSpecImpl<Letter> for char {
    open spec fn obeys_from_spec() -> bool {
        true
    }

    open spec fn from_spec(value: Letter) -> char {
        value@
    }
}

} // verus!
