//! The page that lists, page by page, the words that encrypt a letter.
use super::widgets::{Prompt, PromptView};
use super::Key;
use crate::calculator::encryptor::{encrypt_letter, encryption_of};
use crate::calculator::text::{chars_of, is_ascii_alphabetic, trimmed};
use crate::calculator::{letter_number, CORE_LENGTH};
use vstd::prelude::*;

verus! {

/// The width of a column of the table: a word and two spaces.
pub const COLUMN_WIDTH: u16 = 6;

/// The words that encrypt a letter.
pub struct EncryptResults {
    pub input: String,
    pub cyphers: Vec<[char; CORE_LENGTH]>,
}

/// The words that encrypt a letter, as mathematical values.
pub struct EncryptResultsView {
    pub input: Seq<char>,
    pub cyphers: Seq<[char; CORE_LENGTH]>,
}

impl View for EncryptResults {
    type V = EncryptResultsView;

    open spec fn view(&self) -> EncryptResultsView {
        EncryptResultsView { input: self.input@, cyphers: self.cyphers@ }
    }
}

/// Encrypt page state.
pub struct Encrypt {
    results: Option<Result<EncryptResults, String>>,
    page_start: usize,
    page_len: usize,
    prompt: Prompt,
}

/// The state of the page as mathematical values.
pub struct EncryptView {
    /// The letter that was encrypted and its words, or the text of an error.
    pub results: Option<Result<EncryptResultsView, Seq<char>>>,
    /// The index of the first word of the page that is shown.
    pub page_start: usize,
    /// The number of words on a page.
    pub page_len: usize,
    pub prompt: PromptView,
}

/// How the words are laid out in a table.
#[derive(Debug, Clone, Copy, PartialEq, Eq, Structural)]
pub struct PageLayout {
    pub table_rows: u16,
    pub table_cols: u16,
    pub current_page: usize,
    pub total_pages: usize,
}

/// A number as a `usize`, or the greatest `usize` where it does not fit.
pub open spec fn saturated(number: int) -> usize {
    if number > usize::MAX {
        usize::MAX
    } else {
        number as usize
    }
}

/// The rows of a table in an area of this height: what the border leaves,
/// and at least one.
pub open spec fn rows_in(height: u16) -> u16 {
    if height <= 3 {
        1
    } else {
        (height - 2) as u16
    }
}

/// The columns of a table in an area of this width: what the border leaves,
/// and at least one.
pub open spec fn cols_in(width: u16) -> u16 {
    if width < 2 + 2 * COLUMN_WIDTH {
        1
    } else {
        ((width - 2) / COLUMN_WIDTH as int) as u16
    }
}

impl EncryptView {
    /// The number of words to show, 0 without a result.
    pub open spec fn len(self) -> int {
        match self.results {
            Some(Ok(results)) => results.cyphers.len() as int,
            _ => 0,
        }
    }

    /// The page in an area of this size: the table has as many rows and
    /// columns as fit, a page holds one word for each cell, and the page
    /// begins at a multiple of its length. Without words nothing changes.
    pub open spec fn laid_out(self, width: u16, height: u16) -> EncryptView {
        let page_len = rows_in(height) * cols_in(width);
        match self.results {
            Some(Ok(_)) => EncryptView {
                page_len: page_len as usize,
                page_start: (self.page_start - self.page_start as int % page_len) as usize,
                ..self
            },
            _ => self,
        }
    }

    /// The numbers of the page that is shown and of all pages.
    pub open spec fn layout(self, width: u16, height: u16) -> PageLayout {
        let rows = rows_in(height);
        let cols = cols_in(width);
        let total_cols = saturated(1 + self.len() / rows as int);
        PageLayout {
            table_rows: rows,
            table_cols: cols,
            current_page: saturated(self.page_start as int / (rows * cols) + 1),
            total_pages: saturated(1 + total_cols as int / cols as int),
        }
    }

    /// The word in a cell of the table: the words of a page fill the table
    /// column by column.
    pub open spec fn cell(self, layout: PageLayout, row: u16, col: u16) -> Option<
        [char; CORE_LENGTH],
    > {
        let index = self.page_start + row + col * layout.table_rows;
        if 0 <= index < self.len() {
            Some(self.results->Some_0->Ok_0.cyphers[index])
        } else {
            None
        }
    }

    /// The page before the one that is shown, or the first.
    pub open spec fn after_previous_page(self) -> EncryptView {
        EncryptView {
            page_start: if self.page_start >= self.page_len {
                (self.page_start - self.page_len) as usize
            } else {
                0
            },
            ..self
        }
    }

    /// The page after the one that is shown, or the last. Without words, or
    /// before the page has a length, nothing changes.
    pub open spec fn after_next_page(self) -> EncryptView {
        if self.results is Some && self.results->Some_0 is Ok && self.page_len > 0 {
            let first_of_last_page = self.len() - self.len() % self.page_len as int;
            EncryptView {
                page_start: if self.page_start + self.page_len <= first_of_last_page {
                    (self.page_start + self.page_len) as usize
                } else {
                    first_of_last_page as usize
                },
                ..self
            }
        } else {
            self
        }
    }

    /// The page after the text in the prompt is submitted. An empty prompt
    /// changes nothing. Any other prompt is emptied; where it held one
    /// letter between whitespace, the encryption of the letter is the new
    /// result, shown from its first word.
    pub open spec fn after_input_submitted(self) -> EncryptView {
        let line = trimmed(self.prompt.input);
        let emptied = self.prompt.cleared();
        if self.prompt.input.len() == 0 {
            self
        } else if line.len() == 1 && letter_number(line[0]) is Some {
            EncryptView {
                results: Some(
                    Ok(
                        EncryptResultsView {
                            input: line,
                            cyphers: encryption_of(letter_number(line[0])->Some_0),
                        },
                    ),
                ),
                page_start: 0,
                prompt: emptied,
                ..self
            }
        } else {
            EncryptView { prompt: emptied, ..self }
        }
    }
}

impl EncryptView {
    /// The page after a key. Escape is left to the program; the keys of the
    /// pages turn the pages, Enter submits the prompt, and the other keys edit
    /// the prompt.
    pub open spec fn after_key(self, key: Key) -> EncryptView {
        match key {
            Key::Char(c) => EncryptView { prompt: self.prompt.after_event_char(c), ..self },
            Key::Delete => EncryptView { prompt: self.prompt.after_delete_right(), ..self },
            Key::Backspace => EncryptView { prompt: self.prompt.after_delete_left(), ..self },
            Key::Left => EncryptView { prompt: self.prompt.after_cursor_left(), ..self },
            Key::Right => EncryptView { prompt: self.prompt.after_cursor_right(), ..self },
            Key::Home => EncryptView { prompt: self.prompt.after_cursor_start(), ..self },
            Key::End => EncryptView { prompt: self.prompt.after_cursor_end(), ..self },
            Key::Enter => self.after_input_submitted(),
            Key::PageUp => self.after_previous_page(),
            Key::PageDown => self.after_next_page(),
            _ => self,
        }
    }
}

impl View for Encrypt {
    type V = EncryptView;

    closed spec fn view(&self) -> EncryptView {
        EncryptView {
            results: match self.results {
                Some(Ok(results)) => Some(Ok(results@)),
                Some(Err(text)) => Some(Err(text@)),
                None => None,
            },
            page_start: self.page_start,
            page_len: self.page_len,
            prompt: self.prompt@,
        }
    }
}

impl Default for Encrypt {
    /// A page without a result, with an empty prompt.
    fn default() -> (page: Self)
        ensures
            page@ == (EncryptView {
                results: None,
                page_start: 0,
                page_len: 0,
                prompt: PromptView { input: Seq::empty(), cursor_index: 0, has_focus: false },
            }),
    {
        Encrypt { results: None, page_start: 0, page_len: 0, prompt: Prompt::default() }
    }
}

impl Encrypt {
    /// The result that the page shows.
    pub fn results(&self) -> (results: &Option<Result<EncryptResults, String>>)
        ensures
            match results {
                Some(Ok(found)) => self@.results == Some(
                    Ok::<EncryptResultsView, Seq<char>>(found@),
                ),
                Some(Err(text)) => self@.results == Some(
                    Err::<EncryptResultsView, Seq<char>>(text@),
                ),
                None => self@.results is None,
            },
    {
        &self.results
    }

    /// The index of the first word of the page that is shown.
    pub fn page_start(&self) -> (index: usize)
        ensures
            index == self@.page_start,
    {
        self.page_start
    }

    /// The number of words on a page.
    pub fn page_len(&self) -> (len: usize)
        ensures
            len == self@.page_len,
    {
        self.page_len
    }

    /// The prompt of the page.
    pub fn prompt(&self) -> (prompt: &Prompt)
        ensures
            prompt@ == self@.prompt,
    {
        &self.prompt
    }

    /// Empties the prompt and gives it the focus.
    pub fn init(&mut self)
        ensures
            final(self)@ == (EncryptView {
                prompt: PromptView { input: Seq::empty(), cursor_index: 0, has_focus: true },
                ..old(self)@
            }),
    {
        self.prompt.clear();
        self.prompt.set_focus(true);
    }

    /// Fits the table of the words into an area of the terminal, and says
    /// how it is laid out.
    pub fn layout(&mut self, width: u16, height: u16) -> (layout: PageLayout)
        ensures
            final(self)@ == old(self)@.laid_out(width, height),
            layout == old(self)@.layout(width, height),
    {
        let table_rows: u16 = if height <= 3 {
            1
        } else {
            height - 2
        };
        let table_cols: u16 = if width < 2 + 2 * COLUMN_WIDTH {
            1
        } else {
            (width - 2) / COLUMN_WIDTH
        };
        assert(table_rows * table_cols <= 0xffff * 0xffff) by (nonlinear_arith)
            requires
                table_rows <= 0xffff,
                table_cols <= 0xffff,
        ;
        let page_len: u32 = table_rows as u32 * table_cols as u32;
        assert(page_len >= 1) by (nonlinear_arith)
            requires
                page_len == table_rows * table_cols,
                table_rows >= 1,
                table_cols >= 1,
        ;
        let page_len: usize = page_len as usize;
        let len = match &self.results {
            Some(Ok(results)) => results.cyphers.len(),
            _ => 0,
        };
        let total_cols = (len / table_rows as usize).saturating_add(1);
        let total_pages = (total_cols / table_cols as usize).saturating_add(1);
        let current_page = (self.page_start / page_len).saturating_add(1);
        if let Some(Ok(_)) = &self.results {
            let past = self.page_start % page_len;
            assert(past <= self.page_start) by (nonlinear_arith)
                requires
                    past == self.page_start % page_len,
                    page_len > 0,
            ;
            self.page_len = page_len;
            self.page_start = self.page_start - past;
        }
        PageLayout { table_rows, table_cols, current_page, total_pages }
    }

    /// The word in a cell of the table, if the cell holds one.
    pub fn cell(&self, layout: PageLayout, row: u16, col: u16) -> (word: Option<
        [char; CORE_LENGTH],
    >)
        ensures
            word == self@.cell(layout, row, col),
    {
        let results = match &self.results {
            Some(Ok(results)) => results,
            _ => {
                return None;
            },
        };
        assert(col * layout.table_rows <= 0xffff * 0xffff) by (nonlinear_arith)
            requires
                col <= 0xffff,
                layout.table_rows <= 0xffff,
        ;
        let len = results.cyphers.len();
        let offset: u64 = row as u64 + col as u64 * layout.table_rows as u64;
        let index: u64 = match (self.page_start as u64).checked_add(offset) {
            Some(index) => index,
            None => {
                return None;
            },
        };
        if index < len as u64 {
            Some(results.cyphers[index as usize])
        } else {
            None
        }
    }

    /// Does what a key asks of the page. Returns whether the key asks to
    /// leave the page, which Escape does.
    pub fn handle_events(&mut self, key: Key) -> (leave: bool)
        ensures
            final(self)@ == old(self)@.after_key(key),
            leave == (key == Key::Esc),
    {
        match key {
            Key::Esc => {
                return true;
            },
            Key::Char(c) => self.prompt.event_char(c),
            Key::Delete => self.prompt.event_delete(),
            Key::Backspace => self.prompt.event_backspace(),
            Key::Left => self.prompt.event_left(),
            Key::Right => self.prompt.event_right(),
            Key::Home => self.prompt.event_home(),
            Key::End => self.prompt.event_end(),
            Key::Enter => self.input_submitted(),
            Key::PageUp => self.previous_page(),
            Key::PageDown => self.next_page(),
            _ => (),
        }
        false
    }

    /// Encrypts the letter in the prompt.
    pub fn input_submitted(&mut self)
        ensures
            final(self)@ == old(self)@.after_input_submitted(),
    {
        let input = match self.prompt.event_enter() {
            Some(input) => input,
            None => {
                return ;
            },
        };
        let chars = chars_of(input.as_str());
        if chars.len() != 1 || !is_ascii_alphabetic(chars[0]) {
            return ;
        }
        match encrypt_letter(chars[0]) {
            Ok(cyphers) => {
                self.results = Some(Ok(EncryptResults { input, cyphers }));
                self.page_start = 0;
            },
            Err(text) => {
                self.results = Some(Err(text));
                self.page_start = 0;
            },
        }
    }

    /// Shows the page before.
    pub fn previous_page(&mut self)
        ensures
            final(self)@ == old(self)@.after_previous_page(),
    {
        self.page_start = self.page_start.saturating_sub(self.page_len);
    }

    /// Shows the page after.
    pub fn next_page(&mut self)
        ensures
            final(self)@ == old(self)@.after_next_page(),
    {
        let len = match &self.results {
            Some(Ok(results)) => results.cyphers.len(),
            _ => {
                return ;
            },
        };
        if self.page_len == 0 {
            return ;
        }
        let past = len % self.page_len;
        assert(past <= len) by (nonlinear_arith)
            requires
                past == len % self.page_len,
                self.page_len > 0,
        ;
        let first_of_last_page = len - past;
        let next = self.page_start.saturating_add(self.page_len);
        self.page_start = if next <= first_of_last_page {
            next
        } else {
            first_of_last_page
        };
    }
}

} // verus!
