use numeric_core::ui::decrypt::{Decrypt, DecryptQuery};
use numeric_core::ui::line::{Segment, Tone};

fn query(cores: Vec<Option<u32>>, errors: &[&str]) -> DecryptQuery {
    DecryptQuery {
        input: String::new(),
        cores,
        errors: errors.iter().map(|error| error.to_string()).collect(),
    }
}

fn piece(text: &str, tone: Tone) -> Segment {
    Segment { text: text.to_string(), tone }
}

#[test]
fn query_with_cores() {
    let line = query(vec![Some(19), Some(20), Some(9)], &[]).output_text();
    assert_eq!(line, [piece("Value : 19, 20, 9,  Text : STI ", Tone::Green), piece("", Tone::Red)]);
}

#[test]
fn query_with_cores_and_errors() {
    let line = query(vec![Some(1), None, Some(53)], &["Invalid input"]).output_text();
    assert_eq!(line, [
        piece("Value : 1, ?, 53,  Text : A?? ", Tone::Green),
        piece("Errors : Invalid input", Tone::Red),
    ]);
}

#[test]
fn query_with_errors_alone() {
    let line = query(vec![None, None], &["one", "two"]).output_text();
    assert_eq!(line, [piece("Errors : onetwo", Tone::Red)]);
    let line = query(Vec::new(), &[]).output_text();
    assert_eq!(line, [piece("", Tone::Red)]);
}

#[test]
fn query_with_cores_that_are_no_letters() {
    let line = query(vec![Some(0), Some(26), Some(27), Some(u32::MAX)], &[]).output_text();
    assert_eq!(line, [
        piece("Value : 0, 26, 27, 4294967295,  Text : ?Z?? ", Tone::Green),
        piece("", Tone::Red),
    ]);
}

#[test]
fn submitted_lines_are_listed() {
    let mut page = Decrypt::default();
    page.process_input();
    assert!(page.previous_queries().is_empty());
    page.init();
    assert!(page.prompt.has_focus());
    for c in " pigs sand abcd ".chars() {
        page.prompt.input_char(c);
    }
    page.process_input();
    assert_eq!(page.prompt.input(), "");
    let queries = page.previous_queries();
    assert_eq!(queries.len(), 1);
    assert_eq!(queries[0].input, "PIGS SAND ABCD");
    assert_eq!(queries[0].cores, [Some(19), Some(20), None]);
    assert_eq!(queries[0].errors, ["No solutions for \"ABCD\""]);
    for c in "1000 200 11 2".chars() {
        page.prompt.input_char(c);
    }
    page.process_input();
    assert_eq!(page.previous_queries().len(), 2);
    assert_eq!(page.previous_queries()[1].cores, [Some(53)]);
}
