use itertools::Itertools;
use numeric_core::calculator::decrypt::parse_input;
use numeric_core::calculator::decryptor::{decrypt_numbers, decrypt_word, DecryptError, DecryptInput};
use numeric_core::calculator::encryptor::encrypt_letter;

/// The core by the book: the six orders of the three operators, one by one
fn six_orders(numbers: [u32; 4]) -> Result<u32, DecryptError> {
    let mut best: Option<u64> = None;
    let mut overflow = false;
    for order in ["SMD", "SDM", "MSD", "MDS", "DSM", "DMS"] {
        let mut acc = numbers[0] as u64;
        let mut valid = true;
        for (op, operand) in order.chars().zip(&numbers[1..]) {
            let operand = *operand as u64;
            match op {
                'S' if acc >= operand => acc -= operand,
                'M' if acc * operand <= u32::MAX as u64 => acc *= operand,
                'M' => {
                    overflow = true;
                    valid = false;
                }
                'D' if operand != 0 && acc % operand == 0 => acc /= operand,
                _ => valid = false,
            }
            if !valid {
                break;
            }
        }
        if valid {
            best = Some(best.map_or(acc, |least| least.min(acc)));
        }
    }
    match (overflow, best) {
        (true, _) => Err(DecryptError::Overflow),
        (false, Some(core)) => Ok(core as u32),
        (false, None) => Err(DecryptError::NoSolution),
    }
}

/// Numbers that look random and are the same at every run
fn numbers_of(seed: &mut u64, limit: u32) -> [u32; 4] {
    let mut numbers = [0; 4];
    for number in &mut numbers {
        *seed = seed.wrapping_mul(6364136223846793005).wrapping_add(1442695040888963407);
        *number = ((*seed >> 33) as u32) % limit;
    }
    numbers
}

#[test]
fn small_numbers_by_the_six_orders() {
    for a in 0..=12 {
        for b in 0..=12 {
            for c in 0..=12 {
                for d in 0..=12 {
                    assert_eq!(decrypt_numbers([a, b, c, d]), six_orders([a, b, c, d]));
                }
            }
        }
    }
}

#[test]
fn any_numbers_by_the_six_orders() {
    let mut seed = 2024;
    for limit in [30, 1_000, 70_000, u32::MAX] {
        for _ in 0..20_000 {
            let numbers = numbers_of(&mut seed, limit);
            assert_eq!(decrypt_numbers(numbers), six_orders(numbers), "{numbers:?}");
        }
    }
}

#[test]
fn words_by_the_six_orders() {
    let mut seed = 7;
    for _ in 0..20_000 {
        let numbers = numbers_of(&mut seed, 26).map(|number| number + 1);
        let word: String = numbers.iter().map(|number| (b'A' + *number as u8 - 1) as char).collect();
        assert_eq!(decrypt_word(&word), six_orders(numbers), "{word}");
        assert_eq!(decrypt_word(&word.to_lowercase()), six_orders(numbers), "{word}");
    }
}

#[test]
fn every_letter_by_the_six_orders() {
    let mut expected: Vec<Vec<[char; 4]>> = vec![Vec::new(); 27];
    for a in 1..=26u8 {
        for b in 1..=26u8 {
            for c in 1..=26u8 {
                for d in 1..=26u8 {
                    if let Ok(core @ 1..=26) = six_orders([a as u32, b as u32, c as u32, d as u32]) {
                        expected[core as usize].push([a, b, c, d].map(|n| (b'A' + n - 1) as char));
                    }
                }
            }
        }
    }
    for letter in 'A'..='Z' {
        let number = letter as usize - 'A' as usize + 1;
        assert_eq!(encrypt_letter(letter).unwrap(), expected[number], "{letter}");
    }
}

/// The kinds of lines as the standard library tells them apart
fn classified(input: &str) -> Result<Result<Vec<String>, [u32; 4]>, DecryptError> {
    let is_digits = input.chars().any(|c| c.is_ascii_digit());
    let is_alphabetic = input.chars().any(|c| c.is_ascii_alphabetic());
    let words: Vec<String> = input.split_whitespace().map(|word| word.to_string()).collect();
    match (is_digits, is_alphabetic) {
        (true, false) => {
            if words.len() != 4 {
                return Err(DecryptError::InputNumsLen);
            }
            words
                .into_iter()
                .filter_map(|word| word.parse::<u32>().ok())
                .collect_array()
                .map(Err)
                .ok_or(DecryptError::InputNumsLen)
        }
        (false, true) => Ok(Ok(words)),
        (false, false) => Err(DecryptError::InputEmpty),
        (true, true) => Err(DecryptError::InputMixed),
    }
}

/// The operands of a cypher as the standard library reads them
fn operands(text: &str) -> Option<[u32; 4]> {
    let words = text.split_whitespace().collect::<Vec<_>>();
    if words.len() == 4 {
        let mut nums = [0; 4];
        for (index, num) in nums.iter_mut().enumerate() {
            *num = words.get(index).and_then(|s| s.parse().ok())?;
        }
        return Some(nums);
    }
    if words.len() != 1 {
        return None;
    }
    let word = *words.first()?;
    if word.chars().count() != 4 {
        return None;
    }
    let mut chars = word.chars();
    let mut numbers = [0_u32; 4];
    for num in &mut numbers {
        let c = chars.next()?;
        *num = match c {
            'A'..='Z' => c as u32 - 'A' as u32 + 1,
            'a'..='z' => c as u32 - 'a' as u32 + 1,
            _ => return None,
        };
    }
    Some(numbers)
}

const LINES: [&str; 40] = [
    "",
    " ",
    "\t\r\n",
    "PEAK",
    "peak",
    " PIGS SAND\r\nMAIL DATE\tHEAD ",
    "CLAM tell FIND",
    "a b c d",
    "abcd efgh ijkl mnop",
    "1000 200 11 2",
    "156 21 9 7",
    " 1\t2\n3\r4 ",
    "1 2 3",
    "1 2 3 4 5",
    "+1 +2 +3 +4",
    "-1 2 3 4",
    "1 2 3 4294967295",
    "1 2 3 4294967296",
    "01 002 0003 00004",
    "1,2,3,4",
    "1.5 2 3 4",
    "1 2 3 ?",
    "PEAK 12",
    "AB1D",
    "x",
    "?",
    "?? !!",
    "\u{e9}t\u{e9}",
    "AB\u{e9}",
    "ABC\u{e9}",
    "\u{e9}\u{e9}",
    "1\u{a0}2\u{2003}3\u{3000}4",
    "PEAK\u{a0}TREE",
    "\u{661} \u{662} \u{663} \u{664}",
    "1 2 3 \u{664}",
    "A\u{b}B",
    "12\u{b}34",
    "++1 2 3 4",
    "1 2 3 4 ",
    "tree  \u{85} tree",
];

#[test]
fn lines_as_the_standard_library_reads_them() {
    for line in LINES {
        let expected = classified(line);
        match DecryptInput::parse(line) {
            Ok(DecryptInput::Words(words)) => assert_eq!(Ok(Ok(words)), expected, "{line:?}"),
            Ok(DecryptInput::Numbers(numbers)) => assert_eq!(Ok(Err(numbers)), expected, "{line:?}"),
            Err(error) => assert_eq!(Err(error), expected, "{line:?}"),
        }
    }
}

#[test]
fn cyphers_as_the_standard_library_reads_them() {
    for line in LINES {
        assert_eq!(parse_input(line), operands(line), "{line:?}");
    }
}
