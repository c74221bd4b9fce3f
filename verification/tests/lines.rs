use numeric_core::calculator::decrypt::{decrypt, failure_text, parse_input, solve_recursive};
use numeric_core::calculator::decryptor::DecryptError;
use numeric_core::calculator::encrypt::{encrypt_letter, encrypt_number};
use numeric_core::calculator::operation::{Operation, OperatorSet};
use numeric_core::calculator::Cypher;

#[test]
fn operands_of_a_cypher() {
    assert_eq!(parse_input("1000 200 11 2"), Some([1000, 200, 11, 2]));
    assert_eq!(parse_input(" 1 2\t3 4 "), Some([1, 2, 3, 4]));
    assert_eq!(parse_input("PEAK"), Some([16, 5, 1, 11]));
    assert_eq!(parse_input(" peak "), Some([16, 5, 1, 11]));
}

#[test]
fn what_is_no_cypher() {
    assert_eq!(parse_input(""), None);
    assert_eq!(parse_input("PEA"), None);
    assert_eq!(parse_input("PEAKS"), None);
    assert_eq!(parse_input("PE4K"), None);
    assert_eq!(parse_input("PEAK TREE"), None);
    assert_eq!(parse_input("1 2 3"), None);
    assert_eq!(parse_input("1 2 3 x"), None);
    assert_eq!(parse_input("1 2 3 4294967296"), None);
    assert_eq!(parse_input("AB\u{e9}"), None);
    assert_eq!(parse_input("a b c d"), None);
}

#[test]
fn line_of_words() {
    let (cores, errors) = decrypt(" PIGS SAND\r\nMAIL DATE\tHEAD ");
    assert_eq!(cores, [Some(19), Some(20), Some(9), Some(12), Some(12)]);
    assert!(errors.is_empty());
}

#[test]
fn line_of_numbers() {
    let (cores, errors) = decrypt("1000 200 11 2");
    assert_eq!(cores, [Some(53)]);
    assert!(errors.is_empty());
}

#[test]
fn line_with_failures() {
    let (cores, errors) = decrypt("PEAK ABCD TOOLONG tree");
    assert_eq!(cores, [Some(1), None, None, Some(2)]);
    assert_eq!(errors, ["No solutions for \"ABCD\"", "Invalid input"]);
}

#[test]
fn line_that_is_one_cypher() {
    let (cores, errors) = decrypt("1 2 3 4");
    assert_eq!(cores, [None]);
    assert_eq!(errors, ["No solutions for \"1 2 3 4\""]);
    let (cores, errors) = decrypt("PEAK 12");
    assert_eq!(cores, [None]);
    assert_eq!(errors, ["Invalid input"]);
    let (cores, errors) = decrypt("100000 100000 1 1");
    assert_eq!(cores, [None]);
    assert_eq!(errors, ["Overflow for \"100000 100000 1 1\""]);
}

#[test]
fn empty_line() {
    let (cores, errors) = decrypt("");
    assert!(cores.is_empty());
    assert!(errors.is_empty());
    let (cores, errors) = decrypt("?");
    assert_eq!(cores, [None]);
    assert_eq!(errors, ["Invalid input"]);
}

#[test]
fn quoted_cypher_is_escaped() {
    let (_, errors) = decrypt("1 2\t3 4");
    assert_eq!(errors, ["No solutions for \"1 2\\t3 4\""]);
}

#[test]
fn search_needs_a_number() {
    assert_eq!(solve_recursive(7, &[], OperatorSet::all()), Err(DecryptError::NoSolution));
    assert_eq!(solve_recursive(1000, &[200, 11, 2], OperatorSet::all()), Ok(53));
    assert_eq!(solve_recursive(7, &[5], OperatorSet::all()), Ok(2));
    assert_eq!(solve_recursive(7, &[5], OperatorSet::all().difference(Operation::Sub)), Ok(35));
    assert_eq!(solve_recursive(7, &[5], OperatorSet::empty()), Err(DecryptError::NoSolution));
    assert_eq!(solve_recursive(7, &[5, 5], OperatorSet::all().difference(Operation::Sub)), Ok(7));
}

#[test]
fn letter_named_by_a_line() {
    let cyphers = encrypt_letter("L").unwrap();
    assert!(cyphers.contains(&Cypher::Text(['D', 'A', 'T', 'E'])));
    assert!(cyphers.contains(&Cypher::Text(['H', 'E', 'A', 'D'])));
    assert!(cyphers.contains(&Cypher::Text(['R', 'O', 'A', 'D'])));
    assert_eq!(cyphers.len(), 4329);
    assert_eq!(encrypt_letter("l"), Ok(cyphers));
}

#[test]
fn line_that_names_no_letter() {
    assert_eq!(encrypt_letter(""), Err("Invalid input : expected at least one char".to_string()));
    assert_eq!(encrypt_letter("LL"), Err("Invalid input : expected a single character".to_string()));
    assert_eq!(
        encrypt_letter("\u{e9}"),
        Err("Invalid input : expected an alphabetic letter".to_string())
    );
    assert_eq!(
        encrypt_letter("\u{e9}\u{e9}"),
        Err("Invalid input : expected a single character".to_string())
    );
    assert_eq!(encrypt_letter("1"), Err("Invalid input : expected an alphabetic letter".to_string()));
}

#[test]
fn numbers_are_not_encrypted() {
    assert_eq!(encrypt_number(12), Err("unimplemented".to_string()));
    assert_eq!(encrypt_number(0), Err("unimplemented".to_string()));
}

#[test]
fn lines_that_report_failures() {
    assert_eq!(failure_text(DecryptError::NoSolution, "\"ABCD\""), "No solutions for \"ABCD\"");
    assert_eq!(failure_text(DecryptError::Overflow, "\"9 9\""), "Overflow for \"9 9\"");
    assert_eq!(failure_text(DecryptError::NoSolution, ""), "No solutions for ");
}
