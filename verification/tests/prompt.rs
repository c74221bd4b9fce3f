use numeric_core::calculator::text::trim;
use numeric_core::ui::widgets::{Prompt, MAX_INPUT_LEN};

fn prompt_with(text: &str) -> Prompt {
    let mut prompt = Prompt::default();
    for c in text.chars() {
        prompt.input_char(c);
    }
    prompt
}

fn state(prompt: &Prompt) -> (&str, usize) {
    (prompt.input(), prompt.cursor_index())
}

#[test]
fn empty_prompt() {
    let prompt = Prompt::default();
    assert_eq!(state(&prompt), ("", 0));
    assert!(!prompt.has_focus());
}

#[test]
fn typing_puts_letters_in_uppercase() {
    let prompt = prompt_with("Peak 12z");
    assert_eq!(state(&prompt), ("PEAK 12Z", 8));
}

#[test]
fn typing_ignores_other_characters() {
    let prompt = prompt_with("a-b_c!\u{e9}\t\n+");
    assert_eq!(state(&prompt), ("ABC", 3));
}

#[test]
fn typing_in_the_middle() {
    let mut prompt = prompt_with("AD");
    prompt.cursor_left();
    prompt.input_char('b');
    prompt.input_char('c');
    assert_eq!(state(&prompt), ("ABCD", 3));
    prompt.cursor_start();
    prompt.input_char('0');
    assert_eq!(state(&prompt), ("0ABCD", 1));
}

#[test]
fn typing_stops_at_the_limit() {
    let mut prompt = Prompt::default();
    for _ in 0..MAX_INPUT_LEN + 50 {
        prompt.input_char('a');
    }
    assert_eq!(prompt.input().len(), MAX_INPUT_LEN + 1);
    assert_eq!(prompt.cursor_index(), MAX_INPUT_LEN + 1);
    prompt.delete_left();
    prompt.input_char('b');
    assert!(prompt.input().ends_with("AB"));
    assert_eq!(prompt.input().len(), MAX_INPUT_LEN + 1);
}

#[test]
fn deleting_to_the_left() {
    let mut prompt = prompt_with("ABCD");
    prompt.delete_left();
    assert_eq!(state(&prompt), ("ABC", 3));
    prompt.cursor_left();
    prompt.delete_left();
    assert_eq!(state(&prompt), ("AC", 1));
    prompt.delete_left();
    assert_eq!(state(&prompt), ("C", 0));
    prompt.delete_left();
    assert_eq!(state(&prompt), ("C", 0));
}

#[test]
fn deleting_to_the_right() {
    let mut prompt = prompt_with("ABCD");
    prompt.delete_right();
    assert_eq!(state(&prompt), ("ABCD", 4));
    prompt.cursor_start();
    prompt.delete_right();
    assert_eq!(state(&prompt), ("BCD", 0));
    prompt.cursor_right();
    prompt.delete_right();
    assert_eq!(state(&prompt), ("BD", 1));
    prompt.delete_right();
    prompt.delete_right();
    assert_eq!(state(&prompt), ("B", 1));
}

#[test]
fn cursor_stays_in_the_text() {
    let mut prompt = prompt_with("AB");
    prompt.cursor_right();
    assert_eq!(prompt.cursor_index(), 2);
    prompt.cursor_left();
    prompt.cursor_left();
    prompt.cursor_left();
    assert_eq!(prompt.cursor_index(), 0);
    prompt.cursor_end();
    assert_eq!(prompt.cursor_index(), 2);
    prompt.cursor_start();
    assert_eq!(prompt.cursor_index(), 0);
    prompt.cursor_right();
    assert_eq!(prompt.cursor_index(), 1);
}

#[test]
fn text_is_set_and_cleared() {
    let mut prompt = Prompt::default();
    prompt.set_focus(true);
    prompt.set_input("1000 200 11 2");
    assert_eq!(state(&prompt), ("1000 200 11 2", 13));
    prompt.set_input("\u{e9}t\u{e9}");
    assert_eq!(state(&prompt), ("\u{e9}t\u{e9}", 3));
    prompt.delete_left();
    assert_eq!(state(&prompt), ("\u{e9}t", 2));
    prompt.clear();
    assert_eq!(state(&prompt), ("", 0));
    assert!(prompt.has_focus());
    prompt.set_focus(false);
    assert!(!prompt.has_focus());
}

#[test]
fn submitting_trims_and_empties() {
    let mut prompt = prompt_with("  peak  tree ");
    assert_eq!(prompt.submit(), Some("PEAK  TREE".to_string()));
    assert_eq!(state(&prompt), ("", 0));
    assert_eq!(prompt.submit(), None);
    let mut prompt = prompt_with("   ");
    assert_eq!(prompt.submit(), Some(String::new()));
    assert_eq!(state(&prompt), ("", 0));
}

#[test]
fn trimming_is_that_of_std() {
    for text in [
        "",
        " ",
        "a",
        " a ",
        "\t\n a b \r\n",
        "\u{a0}x\u{3000}",
        "\u{2003}",
        "in  side",
        " \u{e9} ",
        "\u{b}v\u{c}",
    ] {
        assert_eq!(trim(text), text.trim(), "{text:?}");
    }
}

#[test]
fn keys_of_the_pages_type_without_a_limit() {
    let mut prompt = Prompt::default();
    for _ in 0..MAX_INPUT_LEN + 50 {
        prompt.event_char('a');
    }
    assert_eq!(prompt.input().len(), MAX_INPUT_LEN + 50);
    assert_eq!(prompt.cursor_index(), MAX_INPUT_LEN + 50);
    prompt.input_char('b');
    assert_eq!(prompt.input().len(), MAX_INPUT_LEN + 50);
    prompt.event_char('-');
    assert_eq!(prompt.input().len(), MAX_INPUT_LEN + 50);
    prompt.event_home();
    prompt.event_char('z');
    assert!(prompt.input().starts_with("ZA"));
    assert_eq!(prompt.cursor_index(), 1);
}

#[test]
fn keys_of_the_pages_edit_the_text() {
    let mut prompt = Prompt::default();
    for c in " peak 12!".chars() {
        prompt.event_char(c);
    }
    assert_eq!(state(&prompt), (" PEAK 12", 8));
    prompt.event_backspace();
    assert_eq!(state(&prompt), (" PEAK 1", 7));
    prompt.event_left();
    prompt.event_left();
    prompt.event_delete();
    assert_eq!(state(&prompt), (" PEAK1", 5));
    prompt.event_right();
    prompt.event_right();
    assert_eq!(prompt.cursor_index(), 6);
    prompt.event_home();
    assert_eq!(prompt.cursor_index(), 0);
    prompt.event_backspace();
    prompt.event_end();
    prompt.event_delete();
    assert_eq!(state(&prompt), (" PEAK1", 6));
    assert_eq!(prompt.event_enter(), Some("PEAK1".to_string()));
    assert_eq!(state(&prompt), ("", 0));
    assert_eq!(prompt.event_enter(), None);
}
