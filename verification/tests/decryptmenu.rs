use numeric_core::ui::decryptmenu::{
    process_input, Decrypt, DecryptResult, RowSelection, PREVIOUS_QUERIES_MAX_LEN,
};
use numeric_core::ui::line::{Segment, Tone};
use numeric_core::ui::Key;

#[test]
fn known_words() {
    let input = " PIGS SAND\r\nMAIL DATE\tHEAD ";
    let result = process_input(input);
    let expected = DecryptResult {
        input: input.trim().to_string(),
        cores: vec![Some(19), Some(20), Some(9), Some(12), Some(12)],
        errors: Vec::new(),
    };
    assert_eq!(result, expected);
}

#[test]
fn decryptmenu_known_numbers() {
    let input = "1000 200 11 2";
    let result = process_input(input);
    let expected = DecryptResult {
        input: input.to_string(),
        cores: vec![Some(53)],
        errors: Vec::new(),
    };
    assert_eq!(result, expected)
}

#[test]
fn record_of_a_line_with_failures() {
    let result = process_input("PEAK ABCD toolong A1");
    let expected = DecryptResult {
        input: "PEAK ABCD toolong A1".to_string(),
        cores: vec![None],
        errors: vec!["Found words mixed with numbers".to_string()],
    };
    assert_eq!(result, expected);

    let result = process_input("PEAK ABCD toolong tree");
    let expected = DecryptResult {
        input: "PEAK ABCD toolong tree".to_string(),
        cores: vec![Some(1), None, None, Some(2)],
        errors: vec![
            "No solution found".to_string(),
            "Invalid length, expected 4 character words".to_string(),
        ],
    };
    assert_eq!(result, expected);
}

#[test]
fn record_of_a_line_in_error() {
    for (input, error) in [
        ("", "Invalid characters, expected alphabetic words or numbers"),
        ("1 2 3", "Invalid length, expected 4 distinct numbers"),
        ("1 2 3 4", "No solution found"),
        ("100000 100000 1 1", "Overflow in a multiplication"),
        ("AB\u{e9}", "Invalid length, expected 4 character words"),
        ("ABC\u{e9}", "Invalid character, expected alphabetic character"),
    ] {
        let result = process_input(input);
        assert_eq!(result.input, input);
        assert_eq!(result.cores, [None]);
        assert_eq!(result.errors, [error]);
    }
}

#[test]
fn results_are_pushed_in_order() {
    let mut record = DecryptResult::new("  line ");
    assert_eq!(record.input, "line");
    record.push_core(7);
    record.push_error("first".to_string());
    record.push_result(Ok(9));
    record.push_result(Err(numeric_core::calculator::decryptor::DecryptError::NoSolution));
    assert_eq!(record.cores, [Some(7), None, Some(9), None]);
    assert_eq!(record.errors, ["first", "No solution found"]);
}

fn piece(text: &str, tone: Tone) -> Segment {
    Segment { text: text.to_string(), tone }
}

#[test]
fn line_of_one_value() {
    let record = process_input("1000 200 11 2");
    assert_eq!(record.output_text(), [
        piece("Value : ", Tone::Green),
        piece("53", Tone::Green),
        piece(". Text : ", Tone::Green),
        piece("?", Tone::Green),
        piece("", Tone::Plain),
        piece("", Tone::Red),
    ]);
}

#[test]
fn line_of_values_and_errors() {
    let record = process_input("PEAK ABCD tree toolong");
    assert_eq!(record.output_text(), [
        piece("Values : ", Tone::Green),
        piece("1", Tone::Green),
        piece(", ", Tone::Green),
        piece("?", Tone::Red),
        piece(", ", Tone::Green),
        piece("2", Tone::Green),
        piece(", ", Tone::Green),
        piece("?", Tone::Red),
        piece(". Text : ", Tone::Green),
        piece("A", Tone::Green),
        piece("?", Tone::Red),
        piece("B", Tone::Green),
        piece("?", Tone::Red),
        piece(". ", Tone::Green),
        piece("Errors : ", Tone::Red),
        piece("No solution found", Tone::Red),
        piece(", ", Tone::Red),
        piece("Invalid length, expected 4 character words", Tone::Red),
    ]);
}

#[test]
fn line_of_errors_alone() {
    let record = process_input("1 2 3");
    assert_eq!(record.output_text(), [
        piece("Error : ", Tone::Red),
        piece("Invalid length, expected 4 distinct numbers", Tone::Red),
    ]);
    let record = process_input("ABCD ABCD");
    assert_eq!(record.output_text(), [
        piece("Errors : ", Tone::Red),
        piece("No solution found", Tone::Red),
        piece(", ", Tone::Red),
        piece("No solution found", Tone::Red),
    ]);
    let record = DecryptResult::new("");
    assert_eq!(record.output_text(), [piece("", Tone::Red)]);
}

#[test]
fn line_of_large_values() {
    let mut record = DecryptResult::new("");
    record.push_core(0);
    record.push_core(26);
    record.push_core(27);
    record.push_core(4_294_967_295);
    record.push_core(1_000);
    let texts: Vec<String> = record.output_text().into_iter().map(|piece| piece.text).collect();
    assert_eq!(texts, [
        "Values : ", "0", ", ", "26", ", ", "27", ", ", "4294967295", ", ", "1000", ". Text : ", "?",
        "Z", "?", "?", "?", "", "",
    ]);
}

fn typed(page: &mut Decrypt, text: &str) {
    for c in text.chars() {
        assert!(!page.handle_events(Key::Char(c)));
    }
}

#[test]
fn submitted_lines_are_recorded() {
    let mut page = Decrypt::default();
    assert_eq!(page.table_state(), RowSelection::Nothing);
    page.init();
    assert!(page.prompt().has_focus());
    typed(&mut page, "peak");
    assert_eq!(page.prompt().input(), "PEAK");
    page.handle_events(Key::Enter);
    assert_eq!(page.prompt().input(), "");
    assert_eq!(page.history().len(), 1);
    assert_eq!(page.history()[0], process_input("PEAK"));
    assert_eq!(page.table_state(), RowSelection::Last);
    assert_eq!(page.selected(), None);
}

#[test]
fn empty_lines_are_not_recorded() {
    let mut page = Decrypt::default();
    page.input_submitted();
    assert!(page.history().is_empty());
    typed(&mut page, "   ");
    page.input_submitted();
    assert!(page.history().is_empty());
    assert_eq!(page.prompt().input(), "");
    assert_eq!(page.table_state(), RowSelection::Nothing);
}

#[test]
fn history_is_walked_up_and_down() {
    let mut page = Decrypt::default();
    page.history_up();
    page.history_down();
    assert_eq!(page.selected(), None);
    for line in ["PEAK", "TREE", "1 2 3 4"] {
        typed(&mut page, line);
        page.handle_events(Key::Enter);
    }
    typed(&mut page, "X");
    page.handle_events(Key::Up);
    assert_eq!((page.selected(), page.table_state()), (Some(2), RowSelection::Last));
    assert_eq!(page.prompt().input(), "1 2 3 4");
    assert_eq!(page.prompt().cursor_index(), 7);
    page.handle_events(Key::Up);
    assert_eq!((page.selected(), page.table_state()), (Some(1), RowSelection::Row(1)));
    assert_eq!(page.prompt().input(), "TREE");
    page.handle_events(Key::Up);
    page.handle_events(Key::Up);
    assert_eq!((page.selected(), page.table_state()), (Some(0), RowSelection::Row(0)));
    assert_eq!(page.prompt().input(), "PEAK");
    page.handle_events(Key::Down);
    assert_eq!((page.selected(), page.table_state()), (Some(1), RowSelection::Row(1)));
    page.handle_events(Key::Down);
    page.handle_events(Key::Down);
    assert_eq!((page.selected(), page.table_state()), (None, RowSelection::Row(2)));
    assert_eq!(page.prompt().input(), "");
    page.handle_events(Key::Down);
    assert_eq!(page.selected(), None);
}

#[test]
fn recalled_line_is_submitted_again() {
    let mut page = Decrypt::default();
    typed(&mut page, "PEAK");
    page.handle_events(Key::Enter);
    page.handle_events(Key::Up);
    page.handle_events(Key::Enter);
    assert_eq!(page.history().len(), 2);
    assert_eq!(page.history()[0], page.history()[1]);
    assert_eq!(page.selected(), None);
}

#[test]
fn history_is_bounded() {
    let mut page = Decrypt::default();
    for number in 0..PREVIOUS_QUERIES_MAX_LEN + 10 {
        typed(&mut page, &format!("{number} 1 1 1"));
        page.input_submitted();
    }
    assert_eq!(page.history().len(), PREVIOUS_QUERIES_MAX_LEN + 1);
    assert_eq!(page.history()[0].input, "9 1 1 1");
    assert_eq!(page.history()[PREVIOUS_QUERIES_MAX_LEN].input, "137 1 1 1");
}

#[test]
fn escape_leaves_the_page() {
    let mut page = Decrypt::default();
    typed(&mut page, "AB");
    assert!(page.handle_events(Key::Esc));
    assert_eq!(page.prompt().input(), "AB");
    assert!(!page.handle_events(Key::Other));
    assert!(!page.handle_events(Key::PageUp));
    assert_eq!(page.prompt().input(), "AB");
}

#[test]
fn page_takes_long_lines() {
    let mut page = Decrypt::default();
    for _ in 0..60 {
        typed(&mut page, "peak ");
    }
    assert_eq!(page.prompt().input().len(), 300);
    page.handle_events(Key::Enter);
    assert_eq!(page.history()[0].cores, vec![Some(1); 60]);
}
