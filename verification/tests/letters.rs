use itertools::Itertools;
use numeric_core::calculator;
use numeric_core::calculator::{char_to_num, num_to_char, Letter};

#[test]
fn alphabet() {
    assert_eq!(calculator::alphabet().count(), 26);
    assert_eq!(calculator::alphabet().unique().count(), 26);
}

#[test]
fn letter_conversions() {
    let numbers: [Letter; 26] = calculator::alphabet()
        .flat_map(|num| Letter::try_from_num(num))
        .collect_array()
        .unwrap();

    let chars_uppercase: [Letter; 26] = ('A'..='Z')
        .flat_map(|c| Letter::try_from(c))
        .collect_array()
        .unwrap();
    let chars_lowercase: [Letter; 26] = ('a'..='z')
        .flat_map(|c| Letter::try_from(c))
        .collect_array()
        .unwrap();
    let strings: [Letter; 26] = ('A'..='Z')
        .map(|c| c.to_string())
        .flat_map(|str| str.parse::<Letter>())
        .collect_array()
        .unwrap();

    assert_eq!(numbers, strings);
    assert_eq!(chars_uppercase, chars_lowercase);
    assert_eq!(numbers, chars_lowercase);
}

#[test]
fn letters_and_numbers_round_trip() {
    for c in 'A'..='Z' {
        let num = char_to_num(c).unwrap();
        assert_eq!(num_to_char(num), Some(c));
        assert_eq!(char_to_num(c.to_ascii_lowercase()), Some(num));
    }
    for num in 1..=26 {
        assert_eq!(char_to_num(num_to_char(num).unwrap()), Some(num));
    }
}

#[test]
fn first_and_last_letters() {
    assert_eq!(char_to_num('A'), Some(1));
    assert_eq!(char_to_num('a'), Some(1));
    assert_eq!(char_to_num('Z'), Some(26));
    assert_eq!(char_to_num('z'), Some(26));
    assert_eq!(num_to_char(1), Some('A'));
    assert_eq!(num_to_char(26), Some('Z'));
}

#[test]
fn what_is_no_letter() {
    for c in ['@', '[', '`', '{', '0', ' ', '\u{e9}', '\u{0}'] {
        assert_eq!(char_to_num(c), None);
        assert!(Letter::try_from_char(c).is_none());
    }
    assert_eq!(num_to_char(0), None);
    assert_eq!(num_to_char(27), None);
    assert_eq!(num_to_char(u32::MAX), None);
    assert!(Letter::try_from_num(0).is_none());
    assert!(Letter::try_from_num(27).is_none());
}

#[test]
fn letter_keeps_the_uppercase_character() {
    let letter = Letter::try_from_char('q').unwrap();
    assert_eq!(letter.to_char(), 'Q');
    assert_eq!(letter.to_num(), 17);
    assert_eq!(char::from(letter), 'Q');
    assert_eq!(Letter::try_from_num(17), Some(letter));
    assert_eq!(Letter::try_from(17u32).ok(), Some(letter));
}

#[test]
fn letter_from_a_string() {
    assert_eq!("q".parse::<Letter>().ok(), Letter::try_from_char('Q'));
    assert!("".parse::<Letter>().is_err());
    assert!("qq".parse::<Letter>().is_err());
    assert!("1".parse::<Letter>().is_err());
    assert!("\u{e9}".parse::<Letter>().is_err());
    assert_eq!(
        "1".parse::<Letter>().unwrap_err().to_string(),
        "Invalid input: expected an alphabetic letter"
    );
}
