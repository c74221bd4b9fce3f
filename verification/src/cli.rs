//! The lines of text that the command line prints for the words that it
//! decodes.
use crate::calculator::text::{decimal, push_decimal, texts};
use crate::calculator::{num_to_char, number_letter};
use vstd::prelude::*;
use vstd::string::StringExecFns;

verus! {

/// The letter of a core; a question mark where the core is the number of no
/// letter.
pub open spec fn core_letter(core: u32) -> char {
    match number_letter(core) {
        Some(letter) => letter,
        None => '?',
    }
}

/// The line of a decoded word: the letter of its core, a dash, and the core
/// as a number.
pub open spec fn decoded_text(core: u32) -> Seq<char> {
    seq![core_letter(core)] + " - "@ + decimal(core as nat)
}

/// Writes the line of a decoded word.
pub fn decoded_line(core: u32) -> (line: String)
    ensures
        line@ == decoded_text(core),
{
    let mut line = String::new();
    line.push(num_to_char(core).unwrap_or('?'));
    line.append(" - ");
    push_decimal(&mut line, core as u64);
    line
}

/// The texts of a list with a comma and a space between each two of them.
pub open spec fn listed(words: Seq<Seq<char>>) -> Seq<char>
    decreases words.len(),
{
    if words.len() == 0 {
        Seq::empty()
    } else if words.len() == 1 {
        words[0]
    } else {
        listed(words.drop_last()) + ", "@ + words.last()
    }
}

/// The line that sums up the words that could not be decoded: how many
/// they are, and which.
pub open spec fn summary_text(failed: Seq<Seq<char>>) -> Seq<char> {
    "Failed to decode "@ + decimal(failed.len()) + (if failed.len() > 1 {
        " words: `"@
    } else {
        " word: `"@
    }) + listed(failed) + "`"@
}

/// Sums up the words that could not be decoded. Where every word was
/// decoded there is nothing to say.
pub fn failure_summary(failed: &Vec<String>) -> (line: Option<String>)
    ensures
        match line {
            Some(text) => failed@.len() > 0 && text@ == summary_text(texts(failed@)),
            None => failed@.len() == 0,
        },
{
    if failed.len() == 0 {
        return None;
    }
    let ghost words = texts(failed@);
    let mut list = String::new();
    let mut index: usize = 0;
    while index < failed.len()
        invariant
            words == texts(failed@),
            index <= failed.len(),
            list@ == listed(words.take(index as int)),
        decreases failed.len() - index,
    {
        assert(words.take(index + 1).drop_last() == words.take(index as int));
        if index > 0 {
            list.append(", ");
        }
        list.append(failed[index].as_str());
        index += 1;
    }
    assert(words.take(index as int) == words);
    let mut text = String::from_str("Failed to decode ");
    push_decimal(&mut text, failed.len() as u64);
    text.append(if failed.len() > 1 {
        " words: `"
    } else {
        " word: `"
    });
    text.append(list.as_str());
    text.append("`");
    Some(text)
}

} // verus!
