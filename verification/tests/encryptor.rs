use numeric_core::calculator::decryptor::decrypt_word;
use numeric_core::calculator::encryptor::encrypt_letter;
use numeric_core::calculator::char_to_num;

#[test]
fn encryptor_known_letters() {
    let values = encrypt_letter('L').unwrap();
    #[allow(non_snake_case)]
    let known_L = [
        ['D', 'A', 'T', 'E'],
        ['H', 'E', 'A', 'D'],
        ['R', 'O', 'A', 'D'],
    ];
    for word in &known_L {
        assert!(values.contains(word))
    }
}

#[test]
fn encrypted_words_are_sorted_and_unique() {
    let values = encrypt_letter('L').unwrap();
    assert!(!values.is_empty());
    for pair in values.windows(2) {
        assert!(pair[0] < pair[1]);
    }
}

#[test]
fn encrypted_words_decrypt_to_the_letter() {
    for letter in ['A', 'L', 'z'] {
        let values = encrypt_letter(letter).unwrap();
        for word in &values {
            let text: String = word.iter().collect();
            assert_eq!(decrypt_word(&text).ok(), char_to_num(letter));
        }
    }
}

#[test]
fn encryption_is_complete() {
    let values = encrypt_letter('L').unwrap();
    let mut expected = Vec::new();
    for a in 'A'..='Z' {
        for b in 'A'..='Z' {
            for c in 'A'..='Z' {
                for d in 'A'..='Z' {
                    let text: String = [a, b, c, d].iter().collect();
                    if decrypt_word(&text) == Ok(12) {
                        expected.push([a, b, c, d]);
                    }
                }
            }
        }
    }
    assert_eq!(values, expected);
}

#[test]
fn number_of_words_for_a_letter() {
    assert_eq!(encrypt_letter('L').unwrap().len(), 4329);
    assert_eq!(encrypt_letter('A').unwrap().len(), 6656);
    assert_eq!(encrypt_letter('Y').unwrap().len(), 1823);
}

#[test]
fn lowercase_letter_gives_the_same_words() {
    assert_eq!(encrypt_letter('l'), encrypt_letter('L'));
}

#[test]
fn not_a_letter() {
    assert_eq!(
        encrypt_letter('1'),
        Err("Invalid input : expected an alphabetic letter".to_string())
    );
    assert_eq!(
        encrypt_letter(' '),
        Err("Invalid input : expected an alphabetic letter".to_string())
    );
}
