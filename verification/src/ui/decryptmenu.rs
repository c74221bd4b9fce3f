//! The page that decrypts lines of input and keeps a history of them.
use super::line::{
    append_segments, green, interspersed, intersperse, line, push_segment, red, segment, Segment,
    SegmentView, Tone,
};
use super::widgets::{Prompt, PromptView};
use super::Key;
use crate::calculator::decryptor::{
    decrypt_numbers, decrypt_word, core_of, word_core, Cyphers, DecryptError, DecryptInput,
};
use crate::calculator::text::{char_text, decimal, number_text, texts, trim, trimmed};
use crate::calculator::{num_to_char, number_letter};
use vstd::prelude::*;
use vstd::string::StrSliceExecFns;

verus! {

/// Sanitize user inputs: do not allow infinite history.
pub const PREVIOUS_QUERIES_MAX_LEN: usize = 128;

/// Record of a user's text input and its decryption.
#[derive(Debug, PartialEq, Eq)]
pub struct DecryptResult {
    pub input: String,
    pub cores: Vec<Option<u32>>,
    pub errors: Vec<String>,
}

/// A record as mathematical values.
pub struct DecryptResultView {
    pub input: Seq<char>,
    pub cores: Seq<Option<u32>>,
    pub errors: Seq<Seq<char>>,
}

impl View for DecryptResult {
    type V = DecryptResultView;

    open spec fn view(&self) -> DecryptResultView {
        DecryptResultView { input: self.input@, cores: self.cores@, errors: texts(self.errors@) }
    }
}

impl DecryptResultView {
    /// The record with one more result: a core, or no core and the text of
    /// an error.
    pub open spec fn with_result(self, result: Result<u32, DecryptError>) -> DecryptResultView {
        match result {
            Ok(core) => DecryptResultView { cores: self.cores.push(Some(core)), ..self },
            Err(error) => DecryptResultView {
                cores: self.cores.push(None),
                errors: self.errors.push(error.message()),
                ..self
            },
        }
    }

    /// The record with the results of a list of words, one after the other.
    pub open spec fn with_words(self, words: Seq<Seq<char>>) -> DecryptResultView
        decreases words.len(),
    {
        if words.len() == 0 {
            self
        } else {
            self.with_words(words.drop_last()).with_result(word_core(words.last()))
        }
    }
}

/// The number of a core in green; a red question mark where there is no core.
pub open spec fn value_segment(core: Option<u32>) -> SegmentView {
    match core {
        Some(number) => green(decimal(number as nat)),
        None => red("?"@),
    }
}

/// The letter of a core in green; a question mark where the core is the
/// number of no letter, red where there is no core.
pub open spec fn letter_segment(core: Option<u32>) -> SegmentView {
    match core {
        Some(number) => match number_letter(number) {
            Some(c) => green(seq![c]),
            None => green("?"@),
        },
        None => red("?"@),
    }
}

impl DecryptResultView {
    /// The heading of the errors, in red: empty without an error.
    pub open spec fn errors_header(self) -> SegmentView {
        red(
            if self.errors.len() == 0 {
                ""@
            } else if self.errors.len() == 1 {
                "Error : "@
            } else {
                "Errors : "@
            },
        )
    }

    /// The errors in red, with commas between them.
    pub open spec fn errors_line(self) -> Seq<SegmentView> {
        interspersed(Seq::new(self.errors.len(), |i: int| red(self.errors[i])), red(", "@))
    }

    /// The heading of the values, in green: empty without a core.
    pub open spec fn values_header(self) -> SegmentView {
        green(
            if self.cores.len() == 0 {
                ""@
            } else if self.cores.len() == 1 {
                "Value : "@
            } else {
                "Values : "@
            },
        )
    }

    /// The cores as numbers, with green commas between them.
    pub open spec fn values_line(self) -> Seq<SegmentView> {
        interspersed(
            Seq::new(self.cores.len(), |i: int| value_segment(self.cores[i])),
            green(", "@),
        )
    }

    /// The heading of the letters, in green: empty without a core.
    pub open spec fn text_header(self) -> SegmentView {
        green(
            if self.cores.len() == 0 {
                ""@
            } else {
                ". Text : "@
            },
        )
    }

    /// The cores as letters.
    pub open spec fn text_line(self) -> Seq<SegmentView> {
        Seq::new(self.cores.len(), |i: int| letter_segment(self.cores[i]))
    }

    /// What stands between the letters and the errors: nothing without an
    /// error, else a green full stop.
    pub open spec fn text_footer(self) -> SegmentView {
        if self.errors.len() == 0 {
            SegmentView { text: ""@, tone: Tone::Plain }
        } else {
            green(". "@)
        }
    }

    /// The line that shows the record. Where every cypher failed, it holds
    /// the errors alone; else the values, the letters, and then the errors.
    pub open spec fn output_line(self) -> Seq<SegmentView> {
        if self.errors.len() == self.cores.len() {
            seq![self.errors_header()] + self.errors_line()
        } else {
            seq![self.values_header()] + self.values_line() + seq![self.text_header()]
                + self.text_line() + seq![self.text_footer(), self.errors_header()]
                + self.errors_line()
        }
    }
}

impl DecryptResult {
    /// The line that shows the record.
    pub fn output_text(&self) -> (segments: Vec<Segment>)
        ensures
            line(segments@) == self@.output_line(),
    {
        let errors_header = segment(
            if self.errors.len() == 0 {
                ""
            } else if self.errors.len() == 1 {
                "Error : "
            } else {
                "Errors : "
            },
            Tone::Red,
        );
        let mut errors: Vec<Segment> = Vec::new();
        let mut index: usize = 0;
        while index < self.errors.len()
            invariant
                index <= self.errors.len(),
                line(errors@) == Seq::new(index as nat, |i: int| red(self@.errors[i])),
            decreases self.errors.len() - index,
        {
            push_segment(&mut errors, segment(self.errors[index].as_str(), Tone::Red));
            index += 1;
        }
        let errors = intersperse(errors, segment(", ", Tone::Red));

        let mut output: Vec<Segment> = Vec::new();
        if self.errors.len() == self.cores.len() {
            push_segment(&mut output, errors_header);
            append_segments(&mut output, errors);
            return output;
        }
        let values_header = segment(
            if self.cores.len() == 0 {
                ""
            } else if self.cores.len() == 1 {
                "Value : "
            } else {
                "Values : "
            },
            Tone::Green,
        );
        let mut values: Vec<Segment> = Vec::new();
        let mut text: Vec<Segment> = Vec::new();
        let mut index: usize = 0;
        while index < self.cores.len()
            invariant
                index <= self.cores.len(),
                line(values@) == Seq::new(index as nat, |i: int| value_segment(self@.cores[i])),
                line(text@) == Seq::new(index as nat, |i: int| letter_segment(self@.cores[i])),
            decreases self.cores.len() - index,
        {
            let core = self.cores[index];
            let value = match core {
                Some(number) => Segment { text: number_text(number), tone: Tone::Green },
                None => segment("?", Tone::Red),
            };
            let letter = match core {
                Some(number) => match num_to_char(number) {
                    Some(c) => Segment { text: char_text(c), tone: Tone::Green },
                    None => segment("?", Tone::Green),
                },
                None => segment("?", Tone::Red),
            };
            push_segment(&mut values, value);
            push_segment(&mut text, letter);
            index += 1;
        }
        let values = intersperse(values, segment(", ", Tone::Green));
        let text_header = segment(
            if self.cores.len() == 0 {
                ""
            } else {
                ". Text : "
            },
            Tone::Green,
        );
        let text_footer = if self.errors.len() == 0 {
            segment("", Tone::Plain)
        } else {
            segment(". ", Tone::Green)
        };
        push_segment(&mut output, values_header);
        append_segments(&mut output, values);
        push_segment(&mut output, text_header);
        append_segments(&mut output, text);
        push_segment(&mut output, text_footer);
        push_segment(&mut output, errors_header);
        append_segments(&mut output, errors);
        output
    }

    /// An empty record for an input.
    pub fn new(input: &str) -> (record: Self)
        ensures
            record@ == (DecryptResultView {
                input: trimmed(input@),
                cores: Seq::empty(),
                errors: Seq::empty(),
            }),
    {
        let record = DecryptResult { input: trim(input), cores: Vec::new(), errors: Vec::new() };
        assert(texts(record.errors@) == Seq::<Seq<char>>::empty());
        record
    }

    /// Store a successful core.
    pub fn push_core(&mut self, core: u32)
        ensures
            final(self)@ == (DecryptResultView {
                cores: old(self)@.cores.push(Some(core)),
                ..old(self)@
            }),
    {
        self.cores.push(Some(core));
    }

    /// Store an error.
    pub fn push_error(&mut self, error: String)
        ensures
            final(self)@ == (DecryptResultView {
                cores: old(self)@.cores.push(None),
                errors: old(self)@.errors.push(error@),
                ..old(self)@
            }),
    {
        self.cores.push(None);
        self.errors.push(error);
        assert(texts(self.errors@) == texts(old(self).errors@).push(error@));
    }

    /// Automatically determine whether to store a core or an error.
    pub fn push_result(&mut self, result: Result<u32, DecryptError>)
        ensures
            final(self)@ == old(self)@.with_result(result),
    {
        match result {
            Ok(core) => self.push_core(core),
            Err(error) => self.push_error(error.to_string()),
        }
    }
}

/// The record of a line of input: the line without the whitespace at its
/// ends, and the result of each cypher that it holds, or the error that
/// says why it holds none.
pub open spec fn processed(input: Seq<char>) -> DecryptResultView {
    let empty = DecryptResultView {
        input: trimmed(input),
        cores: Seq::empty(),
        errors: Seq::empty(),
    };
    match DecryptInput::classified(input) {
        Err(error) => empty.with_result(Err(error)),
        Ok(Cyphers::Numbers(numbers)) => empty.with_result(core_of(numbers)),
        Ok(Cyphers::Words(words)) => empty.with_words(words),
    }
}

/// Decrypts a line of input.
pub fn process_input(input: &str) -> (record: DecryptResult)
    ensures
        record@ == processed(input@),
{
    let mut result = DecryptResult::new(input);
    match DecryptInput::parse(input) {
        Err(e) => result.push_result(Err(e)),
        Ok(DecryptInput::Numbers(numbers)) => {
            result.push_result(decrypt_numbers(numbers));
        },
        Ok(DecryptInput::Words(words)) => {
            let ghost empty = result@;
            let ghost written = texts(words@);
            let mut index: usize = 0;
            while index < words.len()
                invariant
                    written == texts(words@),
                    index <= words.len(),
                    result@ == empty.with_words(written.take(index as int)),
                decreases words.len() - index,
            {
                assert(written.take(index + 1).drop_last() == written.take(index as int));
                result.push_result(decrypt_word(words[index].as_str()));
                index += 1;
            }
            assert(written.take(index as int) == written);
        },
    }
    result
}

/// Which row the table of the history was last told to show.
#[derive(Debug, Clone, Copy, PartialEq, Eq, Structural)]
pub enum RowSelection {
    /// No row.
    Nothing,
    /// The last row, whichever it is.
    Last,
    /// The row of this index.
    Row(usize),
}

/// Decrypt page state.
pub struct Decrypt {
    history: Vec<DecryptResult>,
    table_state: RowSelection,
    selected: Option<usize>,
    prompt: Prompt,
}

/// The state of the page as mathematical values.
pub struct DecryptView {
    pub history: Seq<DecryptResultView>,
    pub table_state: RowSelection,
    pub selected: Option<usize>,
    pub prompt: PromptView,
}

/// The views of a list of records.
pub open spec fn records(history: Seq<DecryptResult>) -> Seq<DecryptResultView> {
    Seq::new(history.len(), |i: int| history[i]@)
}

impl View for Decrypt {
    type V = DecryptView;

    closed spec fn view(&self) -> DecryptView {
        DecryptView {
            history: records(self.history@),
            table_state: self.table_state,
            selected: self.selected,
            prompt: self.prompt@,
        }
    }
}

impl DecryptView {
    /// The prompt with the input of a record in it, and the cursor behind it.
    pub open spec fn recalled(self, index: int) -> PromptView {
        self.prompt.with_input(self.history[index].input)
    }

    /// The page once the row `index` of the history is selected.
    pub open spec fn selecting(self, index: usize) -> DecryptView {
        DecryptView {
            selected: Some(index),
            table_state: RowSelection::Row(index),
            prompt: self.recalled(index as int),
            ..self
        }
    }

    /// The page after a step up in the history: from no selection to the
    /// last record, from a record to the one before it.
    pub open spec fn after_history_up(self) -> DecryptView {
        match self.selected {
            None => if self.history.len() == 0 {
                self
            } else {
                DecryptView {
                    selected: Some((self.history.len() - 1) as usize),
                    table_state: RowSelection::Last,
                    prompt: self.recalled(self.history.len() - 1),
                    ..self
                }
            },
            Some(index) => if index == 0 {
                self
            } else {
                self.selecting((index - 1) as usize)
            },
        }
    }

    /// The page after a step down in the history: from a record to the one
    /// after it, from the last record to no selection and an empty prompt.
    pub open spec fn after_history_down(self) -> DecryptView {
        match self.selected {
            None => self,
            Some(index) => if index + 1 < self.history.len() {
                self.selecting((index + 1) as usize)
            } else {
                DecryptView { selected: None, prompt: self.prompt.cleared(), ..self }
            },
        }
    }

    /// The page after the line in the prompt is submitted. An empty prompt
    /// changes nothing; a prompt of whitespace is emptied; any other line is
    /// decrypted and recorded at the end of the history, which loses its first
    /// record once it holds more than `PREVIOUS_QUERIES_MAX_LEN`.
    pub open spec fn after_input_submitted(self) -> DecryptView {
        let line = trimmed(self.prompt.input);
        let emptied = self.prompt.cleared();
        if self.prompt.input.len() == 0 {
            self
        } else if line.len() == 0 {
            DecryptView { prompt: emptied, ..self }
        } else {
            let kept = if self.history.len() > PREVIOUS_QUERIES_MAX_LEN {
                self.history.drop_first()
            } else {
                self.history
            };
            DecryptView {
                history: kept.push(processed(line)),
                table_state: RowSelection::Last,
                selected: None,
                prompt: emptied,
            }
        }
    }
}

impl DecryptView {
    /// The page after a key. Escape is left to the program; the keys of the
    /// arrows up and down walk through the history, Enter submits the prompt,
    /// and the other keys edit the prompt.
    pub open spec fn after_key(self, key: Key) -> DecryptView {
        match key {
            Key::Char(c) => DecryptView { prompt: self.prompt.after_event_char(c), ..self },
            Key::Delete => DecryptView { prompt: self.prompt.after_delete_right(), ..self },
            Key::Backspace => DecryptView { prompt: self.prompt.after_delete_left(), ..self },
            Key::Left => DecryptView { prompt: self.prompt.after_cursor_left(), ..self },
            Key::Right => DecryptView { prompt: self.prompt.after_cursor_right(), ..self },
            Key::Up => self.after_history_up(),
            Key::Down => self.after_history_down(),
            Key::Home => DecryptView { prompt: self.prompt.after_cursor_start(), ..self },
            Key::End => DecryptView { prompt: self.prompt.after_cursor_end(), ..self },
            Key::Enter => self.after_input_submitted(),
            _ => self,
        }
    }
}

impl Default for Decrypt {
    /// A page without history, with an empty prompt.
    fn default() -> (page: Self)
        ensures
            page@ == (DecryptView {
                history: Seq::empty(),
                table_state: RowSelection::Nothing,
                selected: None,
                prompt: PromptView { input: Seq::empty(), cursor_index: 0, has_focus: false },
            }),
    {
        let page = Decrypt {
            history: Vec::new(),
            table_state: RowSelection::Nothing,
            selected: None,
            prompt: Prompt::default(),
        };
        assert(records(page.history@) == Seq::<DecryptResultView>::empty());
        page
    }
}

impl Decrypt {
    #[verifier::type_invariant]
    closed spec fn selected_in_history(self) -> bool {
        self.selected matches Some(index) ==> index < self.history@.len()
    }

    /// The records of the lines decrypted so far, oldest first.
    pub fn history(&self) -> (history: &Vec<DecryptResult>)
        ensures
            records(history@) == self@.history,
    {
        &self.history
    }

    /// The row that the table of the history is to show.
    pub fn table_state(&self) -> (row: RowSelection)
        ensures
            row == self@.table_state,
    {
        self.table_state
    }

    /// The record whose input is recalled in the prompt, if any.
    pub fn selected(&self) -> (selected: Option<usize>)
        ensures
            selected == self@.selected,
            selected matches Some(index) ==> index < self@.history.len(),
    {
        proof {
            use_type_invariant(self);
        }
        self.selected
    }

    /// The prompt of the page.
    pub fn prompt(&self) -> (prompt: &Prompt)
        ensures
            prompt@ == self@.prompt,
    {
        &self.prompt
    }

    /// Empties the prompt and gives it the focus.
    pub fn init(&mut self)
        ensures
            final(self)@ == (DecryptView {
                prompt: PromptView { input: Seq::empty(), cursor_index: 0, has_focus: true },
                ..old(self)@
            }),
    {
        proof {
            use_type_invariant(&*self);
        }
        let mut prompt = Prompt::default();
        prompt.set_focus(true);
        self.prompt = prompt;
    }

    /// Does what a key asks of the page. Returns whether the key asks to
    /// leave the page, which Escape does.
    pub fn handle_events(&mut self, key: Key) -> (leave: bool)
        ensures
            final(self)@ == old(self)@.after_key(key),
            leave == (key == Key::Esc),
    {
        proof {
            use_type_invariant(&*self);
        }
        let mut prompt = Prompt::default();
        match key {
            Key::Esc => {
                return true;
            },
            Key::Up => self.history_up(),
            Key::Down => self.history_down(),
            Key::Enter => self.input_submitted(),
            Key::Char(c) => {
                core::mem::swap(&mut self.prompt, &mut prompt);
                prompt.event_char(c);
                self.prompt = prompt;
            },
            Key::Delete => {
                core::mem::swap(&mut self.prompt, &mut prompt);
                prompt.event_delete();
                self.prompt = prompt;
            },
            Key::Backspace => {
                core::mem::swap(&mut self.prompt, &mut prompt);
                prompt.event_backspace();
                self.prompt = prompt;
            },
            Key::Left => {
                core::mem::swap(&mut self.prompt, &mut prompt);
                prompt.event_left();
                self.prompt = prompt;
            },
            Key::Right => {
                core::mem::swap(&mut self.prompt, &mut prompt);
                prompt.event_right();
                self.prompt = prompt;
            },
            Key::Home => {
                core::mem::swap(&mut self.prompt, &mut prompt);
                prompt.event_home();
                self.prompt = prompt;
            },
            Key::End => {
                core::mem::swap(&mut self.prompt, &mut prompt);
                prompt.event_end();
                self.prompt = prompt;
            },
            _ => (),
        }
        false
    }

    /// Recalls the input of the record before the selected one.
    pub fn history_up(&mut self)
        ensures
            final(self)@ == old(self)@.after_history_up(),
    {
        proof {
            use_type_invariant(&*self);
        }
        let focus = self.prompt.has_focus();
        match self.selected {
            None => {
                if self.history.len() == 0 {
                    return ;
                }
                let last = self.history.len() - 1;
                self.selected = Some(last);
                self.table_state = RowSelection::Last;
                self.prompt = recall(&self.history[last], focus);
            },
            Some(index) => {
                if index == 0 {
                    return ;
                }
                let new_index = index - 1;
                self.selected = Some(new_index);
                self.table_state = RowSelection::Row(new_index);
                self.prompt = recall(&self.history[new_index], focus);
            },
        }
    }

    /// Recalls the input of the record after the selected one.
    pub fn history_down(&mut self)
        ensures
            final(self)@ == old(self)@.after_history_down(),
    {
        proof {
            use_type_invariant(&*self);
        }
        let focus = self.prompt.has_focus();
        let index = match self.selected {
            Some(index) => index,
            None => {
                return ;
            },
        };
        let len = self.history.len();
        let new_index = index + 1;
        if new_index >= len {
            self.selected = None;
            let mut prompt = Prompt::default();
            prompt.set_focus(focus);
            self.prompt = prompt;
            return ;
        }
        self.selected = Some(new_index);
        self.table_state = RowSelection::Row(new_index);
        self.prompt = recall(&self.history[new_index], focus);
    }

    /// Decrypts the line in the prompt and records it.
    pub fn input_submitted(&mut self)
        ensures
            final(self)@ == old(self)@.after_input_submitted(),
    {
        proof {
            use_type_invariant(&*self);
        }
        let focus = self.prompt.has_focus();
        let mut prompt = recall_text(self.prompt.input(), focus);
        let input = match prompt.event_enter() {
            Some(input) => input,
            None => {
                return ;
            },
        };
        self.prompt = prompt;
        if input.as_str().unicode_len() == 0 {
            return ;
        }
        self.selected = None;
        let result = process_input(input.as_str());
        let mut history: Vec<DecryptResult> = Vec::new();
        core::mem::swap(&mut self.history, &mut history);
        let ghost before = records(history@);
        if history.len() > PREVIOUS_QUERIES_MAX_LEN {
            history.remove(0);
            assert(records(history@) == before.drop_first());
        }
        let ghost kept = records(history@);
        history.push(result);
        assert(records(history@) == kept.push(result@));
        self.history = history;
        self.table_state = RowSelection::Last;
    }
}

/// A prompt that holds the input of a record, with the cursor behind it.
fn recall(record: &DecryptResult, focus: bool) -> (prompt: Prompt)
    ensures
        prompt@ == (PromptView {
            input: record@.input,
            cursor_index: record@.input.len(),
            has_focus: focus,
        }),
{
    recall_text(record.input.as_str(), focus)
}

/// A prompt that holds a text, with the cursor behind it.
fn recall_text(text: &str, focus: bool) -> (prompt: Prompt)
    ensures
        prompt@ == (PromptView { input: text@, cursor_index: text@.len(), has_focus: focus }),
{
    let mut prompt = Prompt::default();
    prompt.set_input(text);
    prompt.set_focus(focus);
    prompt
}

} // verus!
