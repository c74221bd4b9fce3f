use numeric_core::calculator::encryptor::encrypt_letter;
use numeric_core::ui::encryptmenu::{Encrypt, PageLayout};
use numeric_core::ui::Key;

fn page_of(letter: char) -> Encrypt {
    let mut page = Encrypt::default();
    page.init();
    assert!(!page.handle_events(Key::Char(letter)));
    assert!(!page.handle_events(Key::Enter));
    page
}

fn words(page: &Encrypt) -> &Vec<[char; 4]> {
    match page.results() {
        Some(Ok(results)) => &results.cyphers,
        _ => panic!("no words"),
    }
}

#[test]
fn letter_is_encrypted() {
    let page = page_of('l');
    match page.results() {
        Some(Ok(results)) => {
            assert_eq!(results.input, "L");
            assert_eq!(results.cyphers, encrypt_letter('L').unwrap());
            assert_eq!(results.cyphers.len(), 4329);
        }
        _ => panic!("no words"),
    }
    assert_eq!(page.page_start(), 0);
    assert_eq!(page.prompt().input(), "");
}

#[test]
fn what_is_no_letter_empties_the_prompt() {
    let mut page = Encrypt::default();
    page.input_submitted();
    assert!(page.results().is_none());
    for line in ["LL", "7", " ", "L L"] {
        for c in line.chars() {
            page.handle_events(Key::Char(c));
        }
        page.handle_events(Key::Enter);
        assert!(page.results().is_none(), "{line:?}");
        assert_eq!(page.prompt().input(), "");
    }
    for c in " l ".chars() {
        page.handle_events(Key::Char(c));
    }
    page.handle_events(Key::Enter);
    assert!(page.results().is_some());
}

#[test]
fn table_fits_the_area() {
    let mut page = page_of('L');
    let layout = page.layout(80, 24);
    assert_eq!(layout, PageLayout { table_rows: 22, table_cols: 13, current_page: 1, total_pages: 16 });
    assert_eq!(page.page_len(), 286);
    let layout = page.layout(0, 0);
    assert_eq!(layout, PageLayout { table_rows: 1, table_cols: 1, current_page: 1, total_pages: 4331 });
    assert_eq!(page.page_len(), 1);
    let layout = page.layout(13, 3);
    assert_eq!((layout.table_rows, layout.table_cols), (1, 1));
    let layout = page.layout(14, 4);
    assert_eq!((layout.table_rows, layout.table_cols), (2, 2));
    let layout = page.layout(u16::MAX, u16::MAX);
    assert_eq!((layout.table_rows, layout.table_cols), (65533, 10922));
    assert_eq!(page.page_len(), 65533 * 10922);
}

#[test]
fn layout_without_words_keeps_the_page() {
    let mut page = Encrypt::default();
    let layout = page.layout(80, 24);
    assert_eq!(layout, PageLayout { table_rows: 22, table_cols: 13, current_page: 1, total_pages: 1 });
    assert_eq!(page.page_len(), 0);
    page.next_page();
    page.previous_page();
    assert_eq!(page.page_start(), 0);
    assert_eq!(page.cell(layout, 0, 0), None);
}

#[test]
fn pages_are_turned() {
    let mut page = page_of('L');
    page.handle_events(Key::PageDown);
    assert_eq!(page.page_start(), 0);
    page.layout(80, 24);
    page.handle_events(Key::PageDown);
    assert_eq!(page.page_start(), 286);
    page.handle_events(Key::PageDown);
    assert_eq!(page.page_start(), 572);
    assert_eq!(page.layout(80, 24).current_page, 3);
    page.handle_events(Key::PageUp);
    assert_eq!(page.page_start(), 286);
    page.handle_events(Key::PageUp);
    page.handle_events(Key::PageUp);
    assert_eq!(page.page_start(), 0);
    for _ in 0..20 {
        page.next_page();
    }
    assert_eq!(page.page_start(), 4329 - 4329 % 286);
    assert_eq!(page.layout(80, 24).current_page, 16);
}

#[test]
fn page_begins_at_a_multiple_of_its_length() {
    let mut page = page_of('L');
    page.layout(80, 24);
    page.next_page();
    page.next_page();
    assert_eq!(page.page_start(), 572);
    let layout = page.layout(80, 12);
    assert_eq!(page.page_len(), 130);
    assert_eq!(page.page_start(), 520);
    assert_eq!(layout.current_page, 5);
}

#[test]
fn cells_are_filled_column_by_column() {
    let mut page = page_of('L');
    let layout = page.layout(80, 24);
    let all = words(&page).clone();
    assert_eq!(page.cell(layout, 0, 0), Some(all[0]));
    assert_eq!(page.cell(layout, 21, 0), Some(all[21]));
    assert_eq!(page.cell(layout, 0, 1), Some(all[22]));
    assert_eq!(page.cell(layout, 21, 12), Some(all[285]));
    page.next_page();
    assert_eq!(page.cell(layout, 3, 2), Some(all[286 + 3 + 2 * 22]));
    for _ in 0..20 {
        page.next_page();
    }
    assert_eq!(page.cell(layout, 0, 0), Some(all[4290]));
    assert_eq!(page.cell(layout, 16, 1), Some(all[4328]));
    assert_eq!(page.cell(layout, 17, 1), None);
    assert_eq!(page.cell(layout, u16::MAX, u16::MAX), None);
}

#[test]
fn escape_leaves_the_encrypt_page() {
    let mut page = Encrypt::default();
    assert!(page.handle_events(Key::Esc));
    assert!(!page.handle_events(Key::Up));
    assert!(!page.handle_events(Key::Other));
}

#[test]
fn page_takes_long_texts() {
    let mut page = Encrypt::default();
    for _ in 0..250 {
        page.handle_events(Key::Char('x'));
    }
    assert_eq!(page.prompt().input().len(), 250);
    page.handle_events(Key::Enter);
    assert!(page.results().is_none());
    assert_eq!(page.prompt().input(), "");
}
