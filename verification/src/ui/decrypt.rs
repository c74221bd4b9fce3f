//! The page that decrypts lines of input and lists the lines decrypted so
//! far, each with its cores on one line of text.
use super::line::{green, line, push_segment, red, Segment, SegmentView, Tone};
use super::widgets::{Prompt, PromptView};
use crate::calculator::decrypt::{cypher_core, cypher_error, cyphers_of, decrypt};
use crate::calculator::text::{decimal, push_decimal, texts, trimmed};
use crate::calculator::{num_to_char, number_letter};
use vstd::prelude::*;
use vstd::string::StringExecFns;

verus! {

/// A line of input with the cores of its cyphers and the errors that they
/// gave.
pub struct DecryptQuery {
    pub input: String,
    pub cores: Vec<Option<u32>>,
    pub errors: Vec<String>,
}

/// A query as mathematical values.
pub struct DecryptQueryView {
    pub input: Seq<char>,
    pub cores: Seq<Option<u32>>,
    pub errors: Seq<Seq<char>>,
}

impl View for DecryptQuery {
    type V = DecryptQueryView;

    open spec fn view(&self) -> DecryptQueryView {
        DecryptQueryView { input: self.input@, cores: self.cores@, errors: texts(self.errors@) }
    }
}

/// The texts of a list, one behind the other.
pub open spec fn joined(parts: Seq<Seq<char>>) -> Seq<char>
    decreases parts.len(),
{
    if parts.len() == 0 {
        Seq::empty()
    } else {
        joined(parts.drop_last()) + parts.last()
    }
}

/// A core as a number and a comma; a question mark where there is none.
pub open spec fn number_part(core: Option<u32>) -> Seq<char> {
    match core {
        Some(number) => decimal(number as nat) + ", "@,
        None => "?, "@,
    }
}

/// A core as its letter; a question mark where it has none.
pub open spec fn letter_part(core: Option<u32>) -> char {
    match core {
        Some(number) => match number_letter(number) {
            Some(c) => c,
            None => '?',
        },
        None => '?',
    }
}

impl DecryptQueryView {
    /// The cores as numbers, each with a comma behind it.
    pub open spec fn numbers(self) -> Seq<char> {
        joined(Seq::new(self.cores.len(), |i: int| number_part(self.cores[i])))
    }

    /// The cores as letters.
    pub open spec fn text(self) -> Seq<char> {
        Seq::new(self.cores.len(), |i: int| letter_part(self.cores[i]))
    }

    /// Some cypher of the query has a core.
    pub open spec fn has_core(self) -> bool {
        exists|i: int| 0 <= i < self.cores.len() && (#[trigger] self.cores[i]) is Some
    }

    /// The errors under their heading; nothing without an error.
    pub open spec fn error_text(self) -> Seq<char> {
        if self.errors.len() == 0 {
            Seq::empty()
        } else {
            "Errors : "@ + joined(self.errors)
        }
    }

    /// The line that shows the query: the values and the letters in green,
    /// where there is a core, and the errors in red.
    pub open spec fn output_line(self) -> Seq<SegmentView> {
        let errors = red(self.error_text());
        if self.has_core() {
            seq![green("Value : "@ + self.numbers() + " Text : "@ + self.text() + " "@), errors]
        } else {
            seq![errors]
        }
    }
}

impl DecryptQuery {
    /// The line that shows the query.
    pub fn output_text(&self) -> (segments: Vec<Segment>)
        ensures
            line(segments@) == self@.output_line(),
    {
        let mut error_text = String::new();
        if self.errors.len() > 0 {
            error_text.append("Errors : ");
            let mut index: usize = 0;
            while index < self.errors.len()
                invariant
                    index <= self.errors.len(),
                    error_text@ == "Errors : "@ + joined(self@.errors.take(index as int)),
                decreases self.errors.len() - index,
            {
                assert(self@.errors.take(index + 1).drop_last() == self@.errors.take(index as int));
                error_text.append(self.errors[index].as_str());
                index += 1;
            }
            assert(self@.errors.take(index as int) == self@.errors);
        }
        let mut text = String::new();
        let mut numbers = String::new();
        let mut any = false;
        let ghost parts = Seq::new(self@.cores.len(), |i: int| number_part(self@.cores[i]));
        let mut index: usize = 0;
        while index < self.cores.len()
            invariant
                index <= self.cores.len(),
                parts == Seq::new(self@.cores.len(), |i: int| number_part(self@.cores[i])),
                numbers@ == joined(parts.take(index as int)),
                text@ == Seq::new(index as nat, |i: int| letter_part(self@.cores[i])),
                any == exists|i: int| 0 <= i < index && (#[trigger] self@.cores[i]) is Some,
            decreases self.cores.len() - index,
        {
            assert(parts.take(index + 1).drop_last() == parts.take(index as int));
            match self.cores[index] {
                Some(core) => {
                    any = true;
                    match num_to_char(core) {
                        Some(c) => text.push(c),
                        None => text.push('?'),
                    }
                    push_decimal(&mut numbers, core as u64);
                    numbers.append(", ");
                },
                None => {
                    text.push('?');
                    numbers.append("?, ");
                },
            }
            index += 1;
        }
        assert(parts.take(index as int) == parts);
        let mut output: Vec<Segment> = Vec::new();
        if any {
            let mut values = String::from_str("Value : ");
            values.append(numbers.as_str());
            values.append(" Text : ");
            values.append(text.as_str());
            values.append(" ");
            push_segment(&mut output, Segment { text: values, tone: Tone::Green });
        }
        push_segment(&mut output, Segment { text: error_text, tone: Tone::Red });
        output
    }
}

/// Decrypt page state.
pub struct Decrypt {
    previous_queries: Vec<DecryptQuery>,
    pub prompt: Prompt,
}

/// The state of the page as mathematical values.
pub struct DecryptView {
    pub previous_queries: Seq<DecryptQueryView>,
    pub prompt: PromptView,
}

/// The views of a list of queries.
pub open spec fn queries(list: Seq<DecryptQuery>) -> Seq<DecryptQueryView> {
    Seq::new(list.len(), |i: int| list[i]@)
}

/// The query of a line of input: the core of each of its cyphers, and one
/// line of text for each cypher without a core.
pub open spec fn query_of(input: Seq<char>) -> DecryptQueryView {
    DecryptQueryView {
        input,
        cores: cyphers_of(input).map_values(|cypher: Seq<char>| cypher_core(cypher)),
        errors: cyphers_of(input).filter_map(|cypher: Seq<char>| cypher_error(cypher)),
    }
}

impl View for Decrypt {
    type V = DecryptView;

    closed spec fn view(&self) -> DecryptView {
        DecryptView { previous_queries: queries(self.previous_queries@), prompt: self.prompt@ }
    }
}

impl DecryptView {
    /// The page after the line in the prompt is submitted: an empty prompt
    /// changes nothing; any other line is emptied of the whitespace at its
    /// ends, decrypted, and listed last.
    pub open spec fn after_process_input(self) -> DecryptView {
        if self.prompt.input.len() == 0 {
            self
        } else {
            DecryptView {
                previous_queries: self.previous_queries.push(query_of(trimmed(self.prompt.input))),
                prompt: self.prompt.cleared(),
            }
        }
    }
}

impl Default for Decrypt {
    /// A page without queries, with an empty prompt.
    fn default() -> (page: Self)
        ensures
            page@ == (DecryptView {
                previous_queries: Seq::empty(),
                prompt: PromptView { input: Seq::empty(), cursor_index: 0, has_focus: false },
            }),
    {
        let page = Decrypt { previous_queries: Vec::new(), prompt: Prompt::default() };
        assert(queries(page.previous_queries@) == Seq::<DecryptQueryView>::empty());
        page
    }
}

impl Decrypt {
    /// The lines decrypted so far, oldest first.
    pub fn previous_queries(&self) -> (list: &Vec<DecryptQuery>)
        ensures
            queries(list@) == self@.previous_queries,
    {
        &self.previous_queries
    }

    /// Empties the prompt and gives it the focus.
    pub fn init(&mut self)
        ensures
            final(self)@ == (DecryptView {
                prompt: PromptView { input: Seq::empty(), cursor_index: 0, has_focus: true },
                ..old(self)@
            }),
    {
        self.prompt.clear();
        self.prompt.set_focus(true);
    }

    /// Decrypts the line in the prompt and lists it.
    pub fn process_input(&mut self)
        ensures
            final(self)@ == old(self)@.after_process_input(),
    {
        let input = match self.prompt.event_enter() {
            Some(input) => input,
            None => {
                return ;
            },
        };
        let (cores, errors) = decrypt(input.as_str());
        let ghost before = queries(self.previous_queries@);
        let query = DecryptQuery { input, cores, errors };
        self.previous_queries.push(query);
        assert(queries(self.previous_queries@) == before.push(query@));
    }
}

} // verus!
