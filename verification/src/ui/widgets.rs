//! A one-line text prompt.
use crate::calculator::text::{trim, trimmed};
use vstd::prelude::*;
use vstd::string::{StrSliceExecFns, StringExecFns};

verus! {

/// Sanitize user input: do not allow infinite input text.
pub const MAX_INPUT_LEN: usize = 192;

/// What a prompt holds: its text, the place of the cursor in it, counted in
/// characters, and whether it has the focus.
pub struct PromptView {
    pub input: Seq<char>,
    pub cursor_index: nat,
    pub has_focus: bool,
}

/// Simple widget for an input text prompt.
pub struct Prompt {
    input: String,
    cursor_index: usize,
    has_focus: bool,
}

/// A character that the prompt takes: an ASCII letter or digit, or a space.
pub open spec fn is_accepted(c: char) -> bool {
    ('A' <= c <= 'Z') || ('a' <= c <= 'z') || ('0' <= c <= '9') || c == ' '
}

/// The uppercase form of an ASCII letter; any other character as it is.
pub open spec fn uppercase(c: char) -> char {
    if 'a' <= c <= 'z' {
        (c as u32 - 32) as char
    } else {
        c
    }
}

impl PromptView {
    /// The prompt without its text.
    pub open spec fn cleared(self) -> PromptView {
        PromptView { input: Seq::empty(), cursor_index: 0, ..self }
    }

    /// The prompt with another text, and the cursor behind it.
    pub open spec fn with_input(self, input: Seq<char>) -> PromptView {
        PromptView { input, cursor_index: input.len(), ..self }
    }

    /// The prompt after a character is typed at the cursor, whatever the
    /// length of the text. Letters are put in uppercase; what is neither a
    /// letter, a digit nor a space is ignored.
    pub open spec fn after_event_char(self, c: char) -> PromptView {
        if is_accepted(c) {
            PromptView {
                input: self.input.insert(self.cursor_index as int, uppercase(c)),
                cursor_index: self.cursor_index + 1,
                ..self
            }
        } else {
            self
        }
    }

    /// The prompt after a character is typed at the cursor of a prompt with a
    /// limit: as without a limit, but nothing is taken once the text is longer
    /// than `MAX_INPUT_LEN`.
    pub open spec fn after_input_char(self, c: char) -> PromptView {
        if self.input.len() <= MAX_INPUT_LEN {
            self.after_event_char(c)
        } else {
            self
        }
    }

    /// The prompt without the character before the cursor, if there is one.
    pub open spec fn after_delete_left(self) -> PromptView {
        if self.cursor_index == 0 {
            self
        } else {
            PromptView {
                input: self.input.remove(self.cursor_index - 1),
                cursor_index: (self.cursor_index - 1) as nat,
                ..self
            }
        }
    }

    /// The prompt without the character at the cursor, if there is one.
    pub open spec fn after_delete_right(self) -> PromptView {
        if self.cursor_index == self.input.len() {
            self
        } else {
            PromptView { input: self.input.remove(self.cursor_index as int), ..self }
        }
    }

    /// The prompt with the cursor one character to the left, if there is
    /// one.
    pub open spec fn after_cursor_left(self) -> PromptView {
        PromptView {
            cursor_index: if self.cursor_index == 0 {
                0
            } else {
                (self.cursor_index - 1) as nat
            },
            ..self
        }
    }

    /// The prompt with the cursor one character to the right, if there is
    /// one.
    pub open spec fn after_cursor_right(self) -> PromptView {
        PromptView {
            cursor_index: if self.cursor_index == self.input.len() {
                self.cursor_index
            } else {
                self.cursor_index + 1
            },
            ..self
        }
    }

    /// The prompt with the cursor before the first character.
    pub open spec fn after_cursor_start(self) -> PromptView {
        PromptView { cursor_index: 0, ..self }
    }

    /// The prompt with the cursor behind the last character.
    pub open spec fn after_cursor_end(self) -> PromptView {
        PromptView { cursor_index: self.input.len(), ..self }
    }
}

impl View for Prompt {
    type V = PromptView;

    closed spec fn view(&self) -> PromptView {
        PromptView {
            input: self.input@,
            cursor_index: self.cursor_index as nat,
            has_focus: self.has_focus,
        }
    }
}

impl Prompt {
    #[verifier::type_invariant]
    closed spec fn cursor_in_text(self) -> bool {
        self.cursor_index <= self.input@.len()
    }

    /// The text of the prompt.
    pub fn input(&self) -> (text: &str)
        ensures
            text@ == self@.input,
    {
        self.input.as_str()
    }

    /// The place of the cursor, from 0 before the first character to the
    /// length of the text after the last.
    pub fn cursor_index(&self) -> (index: usize)
        ensures
            index == self@.cursor_index,
            index <= self@.input.len(),
    {
        proof {
            use_type_invariant(self);
        }
        self.cursor_index
    }

    /// Whether the prompt has the focus.
    pub fn has_focus(&self) -> (focus: bool)
        ensures
            focus == self@.has_focus,
    {
        self.has_focus
    }

    /// Empties the prompt.
    pub fn clear(&mut self)
        ensures
            final(self)@ == old(self)@.cleared(),
    {
        self.cursor_index = 0;
        self.input = String::new();
    }

    /// Replaces the text, and puts the cursor behind it.
    pub fn set_input(&mut self, input: &str)
        ensures
            final(self)@ == old(self)@.with_input(input@),
    {
        self.cursor_index = 0;
        self.input = input.to_owned();
        self.cursor_index = input.unicode_len();
    }

    /// Gives the focus to the prompt, or takes it away.
    pub fn set_focus(&mut self, focus: bool)
        ensures
            final(self)@ == (PromptView { has_focus: focus, ..old(self)@ }),
    {
        proof {
            use_type_invariant(&*self);
        }
        self.has_focus = focus;
    }

    /// Types a character at the cursor. Letters are put in uppercase; what is
    /// neither a letter, a digit nor a space is ignored, and so is everything
    /// once the text is longer than `MAX_INPUT_LEN`.
    pub fn input_char(&mut self, c: char)
        ensures
            final(self)@ == old(self)@.after_input_char(c),
    {
        if self.input.as_str().unicode_len() > MAX_INPUT_LEN {
            return ;
        }
        self.event_char(c);
    }

    /// Types a character at the cursor, whatever the length of the text.
    /// Letters are put in uppercase; what is neither a letter, a digit nor a
    /// space is ignored.
    pub fn event_char(&mut self, c: char)
        ensures
            final(self)@ == old(self)@.after_event_char(c),
    {
        proof {
            use_type_invariant(&*self);
        }
        let accepted = ('A' <= c && c <= 'Z') || ('a' <= c && c <= 'z') || ('0' <= c && c <= '9')
            || c == ' ';
        if !accepted {
            return ;
        }
        let len = self.input.as_str().unicode_len();
        let c = if 'a' <= c && c <= 'z' {
            ((c as u32 - 32) as u8) as char
        } else {
            c
        };
        let mut text = self.input.as_str().substring_char(0, self.cursor_index).to_owned();
        text.push(c);
        if self.cursor_index < len {
            text.append(self.input.as_str().substring_char(self.cursor_index, len));
        }
        // the text with the character fits in memory, and so does its length
        let longer = text.as_str().unicode_len();
        assert(self.cursor_index < longer);
        self.input = text;
        self.cursor_index += 1;
    }

    /// The backspace key: deletes the character before the cursor.
    pub fn event_backspace(&mut self)
        ensures
            final(self)@ == old(self)@.after_delete_left(),
    {
        self.delete_left();
    }

    /// The delete key: deletes the character at the cursor.
    pub fn event_delete(&mut self)
        ensures
            final(self)@ == old(self)@.after_delete_right(),
    {
        self.delete_right();
    }

    /// The left arrow: moves the cursor one character to the left.
    pub fn event_left(&mut self)
        ensures
            final(self)@ == old(self)@.after_cursor_left(),
    {
        self.cursor_left();
    }

    /// The right arrow: moves the cursor one character to the right.
    pub fn event_right(&mut self)
        ensures
            final(self)@ == old(self)@.after_cursor_right(),
    {
        self.cursor_right();
    }

    /// The home key: moves the cursor before the first character.
    pub fn event_home(&mut self)
        ensures
            final(self)@ == old(self)@.after_cursor_start(),
    {
        self.cursor_start();
    }

    /// The end key: moves the cursor behind the last character.
    pub fn event_end(&mut self)
        ensures
            final(self)@ == old(self)@.after_cursor_end(),
    {
        self.cursor_end();
    }

    /// The enter key: returns a trimmed input string and empties the prompt.
    /// `None` if the prompt is empty.
    pub fn event_enter(&mut self) -> (output: Option<String>)
        ensures
            match output {
                Some(text) => old(self)@.input.len() > 0 && text@ == trimmed(old(self)@.input)
                    && final(self)@ == old(self)@.cleared(),
                None => old(self)@.input.len() == 0 && final(self)@ == old(self)@,
            },
    {
        self.submit()
    }

    /// Deletes the character before the cursor.
    pub fn delete_left(&mut self)
        ensures
            final(self)@ == old(self)@.after_delete_left(),
    {
        proof {
            use_type_invariant(&*self);
        }
        if self.cursor_index == 0 {
            return ;
        }
        self.cursor_index -= 1;
        self.remove_at_cursor();
    }

    /// Deletes the character at the cursor.
    pub fn delete_right(&mut self)
        ensures
            final(self)@ == old(self)@.after_delete_right(),
    {
        proof {
            use_type_invariant(&*self);
        }
        if self.cursor_index == self.input.as_str().unicode_len() {
            return ;
        }
        self.remove_at_cursor();
    }

    /// Takes the character at the cursor out of the text.
    fn remove_at_cursor(&mut self)
        requires
            old(self).cursor_index < old(self).input@.len(),
        ensures
            final(self)@ == (PromptView {
                input: old(self)@.input.remove(old(self)@.cursor_index as int),
                ..old(self)@
            }),
    {
        let len = self.input.as_str().unicode_len();
        let mut text = self.input.as_str().substring_char(0, self.cursor_index).to_owned();
        text.append(self.input.as_str().substring_char(self.cursor_index + 1, len));
        self.input = text;
    }

    /// Moves the cursor one character to the left, if there is one.
    pub fn cursor_left(&mut self)
        ensures
            final(self)@ == old(self)@.after_cursor_left(),
    {
        proof {
            use_type_invariant(&*self);
        }
        if self.cursor_index > 0 {
            self.cursor_index -= 1;
        }
    }

    /// Moves the cursor one character to the right, if there is one.
    pub fn cursor_right(&mut self)
        ensures
            final(self)@ == old(self)@.after_cursor_right(),
    {
        proof {
            use_type_invariant(&*self);
        }
        if self.cursor_index < self.input.as_str().unicode_len() {
            self.cursor_index += 1;
        }
    }

    /// Moves the cursor before the first character.
    pub fn cursor_start(&mut self)
        ensures
            final(self)@ == old(self)@.after_cursor_start(),
    {
        self.cursor_index = 0;
    }

    /// Moves the cursor behind the last character.
    pub fn cursor_end(&mut self)
        ensures
            final(self)@ == old(self)@.after_cursor_end(),
    {
        self.cursor_index = self.input.as_str().unicode_len();
    }

    /// Returns a trimmed input string and empties the prompt. `None` if the
    /// prompt is empty.
    pub fn submit(&mut self) -> (output: Option<String>)
        ensures
            match output {
                Some(text) => old(self)@.input.len() > 0 && text@ == trimmed(old(self)@.input)
                    && final(self)@ == old(self)@.cleared(),
                None => old(self)@.input.len() == 0 && final(self)@ == old(self)@,
            },
    {
        if self.input.as_str().unicode_len() == 0 {
            return None;
        }
        let output = trim(self.input.as_str());
        self.clear();
        Some(output)
    }
}

impl Default for Prompt {
    /// An empty prompt without the focus.
    fn default() -> (prompt: Self)
        ensures
            prompt@ == (PromptView { input: Seq::empty(), cursor_index: 0, has_focus: false }),
    {
        Prompt { input: String::new(), cursor_index: 0, has_focus: false }
    }
}

} // verus!
