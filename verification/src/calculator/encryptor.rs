//! The reverse solver: from a core to every word that has it.
use super::adapters::{
    comes_before, dedup, is_ascending, is_strictly_ascending, sorted, without_repeats,
};
use super::chain::{
    candidates, candidates_via, grown, lemma_search_done, lemma_search_splits,
    lemma_search_unfolds, lemma_small_operands_never_overflow,
};
use super::decryptor::{core_of, decrypt_numbers, word_core, word_numbers, DecryptError};
use super::operation::{Operation, OperatorSet, Step};
use super::{char_to_num, letter_number, num_to_char, ALPHABET_FIRST, ALPHABET_LAST, CORE_LENGTH};
use vstd::prelude::*;
use vstd::seq_lib::to_multiset_contains;

verus! {

/// A word of 4 uppercase letters.
pub open spec fn is_uppercase_word(word: [char; CORE_LENGTH]) -> bool {
    &&& 'A' <= word[0] <= 'Z'
    &&& 'A' <= word[1] <= 'Z'
    &&& 'A' <= word[2] <= 'Z'
    &&& 'A' <= word[3] <= 'Z'
}

/// `word` is 4 uppercase letters whose numbers have the core `target`.
pub open spec fn encrypts(word: [char; CORE_LENGTH], target: u32) -> bool {
    is_uppercase_word(word) && core_of(word_numbers(word@)) == Ok::<u32, DecryptError>(target)
}

/// `words` is the encryption of `target`: every word that has this core,
/// and no other, each once, in ascending order.
pub open spec fn is_encryption(words: Seq<[char; CORE_LENGTH]>, target: u32) -> bool {
    &&& is_strictly_ascending(words)
    &&& forall|word: [char; CORE_LENGTH]| #[trigger]
        words.contains(word) <==> encrypts(word, target)
}

/// The encryption of `target`: the one list that holds every word with this
/// core, each once, in ascending order.
pub open spec fn encryption_of(target: u32) -> Seq<[char; CORE_LENGTH]> {
    choose|words: Seq<[char; CORE_LENGTH]>| is_encryption(words, target)
}

/// The numbers of the letters of `word` from the place `from` on.
spec fn numbers_from(word: [char; CORE_LENGTH], from: int) -> Seq<u32> {
    word_numbers(word@).skip(from)
}

/// The first `len` letters of `word` have the first `len` of `numbers`.
spec fn begins_with(word: [char; CORE_LENGTH], numbers: Seq<u32>, len: int) -> bool {
    let letters = word_numbers(word@);
    &&& len > 0 ==> letters[0] == numbers[0]
    &&& len > 1 ==> letters[1] == numbers[1]
    &&& len > 2 ==> letters[2] == numbers[2]
    &&& len > 3 ==> letters[3] == numbers[3]
}

/// `word` has the core `target`, begins with the `position` numbers
/// chosen so far, and has letters behind them that lead from the accumulator
/// `acc` to `target` along some path through `ops`.
spec fn completes(
    word: [char; CORE_LENGTH],
    target: u32,
    numbers: Seq<u32>,
    position: int,
    acc: u32,
    ops: Set<Operation>,
) -> bool {
    &&& encrypts(word, target)
    &&& begins_with(word, numbers, position)
    &&& candidates(acc, numbers_from(word, position), ops).contains(target)
}

/// Every word that `encrypt_letter` returns for a letter decrypts to the
/// number of that letter.
pub proof fn lemma_encrypted_words_decrypt(
    words: Seq<[char; CORE_LENGTH]>,
    target: u32,
    word: [char; CORE_LENGTH],
)
    requires
        is_encryption(words, target),
        words.contains(word),
    ensures
        word_core(word@) == Ok::<u32, DecryptError>(target),
{
}

/// The search on the numbers of 4 letters never overflows: every word has
/// a core, or no solution.
pub proof fn lemma_letters_never_overflow(numbers: Seq<u32>)
    requires
        numbers.len() == CORE_LENGTH,
        forall|i: int|
            0 <= i < numbers.len() ==> ALPHABET_FIRST <= #[trigger] numbers[i] <= ALPHABET_LAST,
    ensures
        core_of(numbers) != Err::<u32, DecryptError>(DecryptError::Overflow),
{
    let rest = numbers.drop_first();
    assert(forall|i: int| 0 <= i < rest.len() ==> 1 <= #[trigger] rest[i] <= 26);
    assert(grown(26, 26, 3) <= u32::MAX) by {
        reveal_with_fuel(grown, 4);
    }
    lemma_small_operands_never_overflow(numbers[0], rest, Set::full(), 26, 26);
}

/// Two ascending lists without repetition that hold the same words are the
/// same list: a core has one encryption.
pub proof fn lemma_encryption_unique(
    first: Seq<[char; CORE_LENGTH]>,
    second: Seq<[char; CORE_LENGTH]>,
    target: u32,
)
    requires
        is_encryption(first, target),
        is_encryption(second, target),
    ensures
        first == second,
        first == encryption_of(target),
{
    assert(forall|word: [char; CORE_LENGTH]| first.contains(word) <==> second.contains(word));
    lemma_ascending_lists_equal(first, second);
    let chosen = encryption_of(target);
    assert(forall|word: [char; CORE_LENGTH]| first.contains(word) <==> chosen.contains(word));
    lemma_ascending_lists_equal(first, chosen);
}

/// Two strictly ascending lists with the same words are equal.
proof fn lemma_ascending_lists_equal(
    first: Seq<[char; CORE_LENGTH]>,
    second: Seq<[char; CORE_LENGTH]>,
)
    requires
        is_strictly_ascending(first),
        is_strictly_ascending(second),
        forall|word: [char; CORE_LENGTH]| first.contains(word) <==> second.contains(word),
    ensures
        first == second,
    decreases first.len(),
{
    if first.len() == 0 {
        if second.len() > 0 {
            assert(second.contains(second[0]));
        }
    } else {
        assert(first.contains(first[0]));
        let k = choose|k: int| 0 <= k < second.len() && second[k] == first[0];
        assert(second.contains(second[0]));
        let m = choose|m: int| 0 <= m < first.len() && first[m] == second[0];
        if k > 0 {
            assert(comes_before(second[0], second[k]));
            if m > 0 {
                assert(comes_before(first[0], first[m]));
            }
        }
        let first_rest = first.drop_first();
        let second_rest = second.drop_first();
        assert(is_strictly_ascending(first_rest));
        assert(is_strictly_ascending(second_rest));
        assert forall|word: [char; CORE_LENGTH]|
            first_rest.contains(word) implies second_rest.contains(word) by {
            lemma_tail_member(first, second, word);
        }
        assert forall|word: [char; CORE_LENGTH]|
            second_rest.contains(word) implies first_rest.contains(word) by {
            lemma_tail_member(second, first, word);
        }
        lemma_ascending_lists_equal(first_rest, second_rest);
        assert(second =~= seq![second[0]] + second_rest);
    }
}

/// A word behind the first of an ascending list stands behind the first of
/// any ascending list with the same words and the same first word.
proof fn lemma_tail_member(
    first: Seq<[char; CORE_LENGTH]>,
    second: Seq<[char; CORE_LENGTH]>,
    word: [char; CORE_LENGTH],
)
    requires
        is_strictly_ascending(first),
        forall|other: [char; CORE_LENGTH]| first.contains(other) <==> second.contains(other),
        first.len() > 0,
        second.len() > 0,
        first[0] == second[0],
        first.drop_first().contains(word),
    ensures
        second.drop_first().contains(word),
{
    let i = choose|i: int| 0 <= i < first.drop_first().len() && first.drop_first()[i] == word;
    assert(comes_before(first[0], first[i + 1]));
    assert(first.contains(word));
    let j = choose|j: int| 0 <= j < second.len() && second[j] == word;
    assert(second.drop_first()[j - 1] == word);
}

/// Brute force encryption.
///
/// Tries every possible 4-letter combination that reaches the number of
/// `letter`, which may be uppercase or lowercase, and keeps those whose core
/// is that number. The words come in ascending order, each once.
pub fn encrypt_letter(letter: char) -> (found: Result<Vec<[char; CORE_LENGTH]>, String>)
    ensures
        match found {
            Ok(words) => letter_number(letter) matches Some(target) && is_encryption(
                words@,
                target,
            ) && words@ == encryption_of(target),
            Err(text) => letter_number(letter) is None && text@
                == "Invalid input : expected an alphabetic letter"@,
        },
{
    let target = match char_to_num(letter) {
        Some(target) => target,
        None => {
            return Err("Invalid input : expected an alphabetic letter".to_owned());
        },
    };
    let mut results: Vec<[char; CORE_LENGTH]> = Vec::new();
    let mut first: u32 = ALPHABET_FIRST;
    while first <= ALPHABET_LAST
        invariant
            ALPHABET_FIRST <= first <= ALPHABET_LAST + 1,
            forall|word: [char; CORE_LENGTH]| #[trigger]
                results@.contains(word) <==> encrypts(word, target) && word_numbers(word@)[0]
                    < first,
        decreases ALPHABET_LAST + 1 - first,
    {
        let numbers = [first, ALPHABET_FIRST, ALPHABET_FIRST, ALPHABET_FIRST];
        encrypt_recursive(numbers, 1, first, OperatorSet::all(), target, &mut results);
        proof {
            assert forall|word: [char; CORE_LENGTH]| #[trigger]
                results@.contains(word) <==> encrypts(word, target) && word_numbers(word@)[0]
                    < first + 1 by {
                if encrypts(word, target) && word_numbers(word@)[0] == first {
                    let operands = word_numbers(word@);
                    lemma_search_unfolds(first, operands.drop_first(), Set::full());
                }
            }
        }
        first += 1;
    }
    let ghost all = results@;
    let ordered = sorted(results);
    let unique = dedup(ordered);
    proof {
        lemma_without_repeats_ascends(ordered@);
        assert forall|word: [char; CORE_LENGTH]| #[trigger]
            unique@.contains(word) <==> encrypts(word, target) by {
            lemma_without_repeats_keeps(ordered@, word);
            to_multiset_contains(ordered@, word);
            to_multiset_contains(all, word);
        }
    }
    proof {
        lemma_encryption_unique(unique@, unique@, target);
    }
    Ok(unique)
}

/// The uppercase character of a number of the alphabet.
fn letter_at(num: u32) -> (c: char)
    requires
        ALPHABET_FIRST <= num <= ALPHABET_LAST,
    ensures
        'A' <= c <= 'Z',
        letter_number(c) == Some(num),
{
    // Every number of the alphabet has a letter, therefore '?' shall never be returned
    match num_to_char(num) {
        Some(c) => c,
        None => '?',
    }
}

/// Gathers the words that begin with the first `position` of `numbers` and
/// go on from the accumulator `acc` to `target`.
///
/// Pulls every number of the alphabet as the next operand and tries to apply
/// it using every remaining operator. An operand that an operator is not
/// valid on leads nowhere. At the end of a path that arrives at `target`, the
/// word is kept if `target` is also its core, the least value of all its
/// paths. A word comes once for each of its paths that arrive.
fn encrypt_recursive(
    numbers: [u32; CORE_LENGTH],
    position: usize,
    acc: u32,
    ops: OperatorSet,
    target: u32,
    results: &mut Vec<[char; CORE_LENGTH]>,
)
    requires
        1 <= position <= CORE_LENGTH,
        forall|i: int|
            0 <= i < position ==> ALPHABET_FIRST <= #[trigger] numbers[i] <= ALPHABET_LAST,
    ensures
        forall|word: [char; CORE_LENGTH]| #[trigger]
            final(results)@.contains(word) <==> old(results)@.contains(word) || completes(
                word,
                target,
                numbers@,
                position as int,
                acc,
                ops@,
            ),
    decreases CORE_LENGTH - position, 1nat,
{
    let ghost before = results@;
    if position == CORE_LENGTH {
        let word = [
            letter_at(numbers[0]),
            letter_at(numbers[1]),
            letter_at(numbers[2]),
            letter_at(numbers[3]),
        ];
        let keep = acc == target && match decrypt_numbers(numbers) {
            Ok(core) => core == target,
            Err(_) => false,
        };
        if keep {
            results.push(word);
        }
        proof {
            assert(numbers@ =~= word_numbers(word@));
            assert forall|other: [char; CORE_LENGTH]| #[trigger]
                results@.contains(other) <==> before.contains(other) || completes(
                    other,
                    target,
                    numbers@,
                    position as int,
                    acc,
                    ops@,
                ) by {
                lemma_search_done(acc, numbers_from(other, position as int), ops@);
                if is_uppercase_word(other) && begins_with(other, numbers@, position as int) {
                    assert(other =~= word);
                }
                lemma_pushed(before, word, keep, other);
            }
        }
        return ;
    }
    let mut number: u32 = ALPHABET_FIRST;
    while number <= ALPHABET_LAST
        invariant
            1 <= position < CORE_LENGTH,
            forall|i: int|
                0 <= i < position ==> ALPHABET_FIRST <= #[trigger] numbers[i] <= ALPHABET_LAST,
            ALPHABET_FIRST <= number <= ALPHABET_LAST + 1,
            forall|word: [char; CORE_LENGTH]| #[trigger]
                results@.contains(word) <==> before.contains(word) || (completes(
                    word,
                    target,
                    numbers@,
                    position as int,
                    acc,
                    ops@,
                ) && word_numbers(word@)[position as int] < number),
        decreases ALPHABET_LAST + 1 - number,
    {
        let mut chosen = numbers;
        chosen[position] = number;
        try_operation(Operation::Sub, chosen, position, acc, ops, target, results);
        try_operation(Operation::Mul, chosen, position, acc, ops, target, results);
        try_operation(Operation::Div, chosen, position, acc, ops, target, results);
        proof {
            assert forall|word: [char; CORE_LENGTH]| #[trigger]
                results@.contains(word) <==> before.contains(word) || (completes(
                    word,
                    target,
                    numbers@,
                    position as int,
                    acc,
                    ops@,
                ) && word_numbers(word@)[position as int] < number + 1) by {
                let operands = numbers_from(word, position as int);
                lemma_search_splits(acc, operands, ops@);
            }
        }
        number += 1;
    }
}

/// Gathers the words that begin with the first `position + 1` of `chosen`
/// and go on from the accumulator `acc` with the operator `op`.
fn try_operation(
    op: Operation,
    chosen: [u32; CORE_LENGTH],
    position: usize,
    acc: u32,
    ops: OperatorSet,
    target: u32,
    results: &mut Vec<[char; CORE_LENGTH]>,
)
    requires
        1 <= position < CORE_LENGTH,
        forall|i: int|
            0 <= i <= position ==> ALPHABET_FIRST <= #[trigger] chosen[i] <= ALPHABET_LAST,
    ensures
        forall|word: [char; CORE_LENGTH]| #[trigger]
            final(results)@.contains(word) <==> old(results)@.contains(word) || (encrypts(
                word,
                target,
            ) && begins_with(word, chosen@, position + 1) && candidates_via(
                op,
                acc,
                numbers_from(word, position as int),
                ops@,
            ).contains(target)),
    decreases CORE_LENGTH - position, 0nat,
{
    if !ops.contains(op) {
        return ;
    }
    if let Step::Value(next) = op.apply(acc, chosen[position]) {
        encrypt_recursive(chosen, position + 1, next, ops.difference(op), target, results);
        proof {
            assert forall|word: [char; CORE_LENGTH]| #[trigger]
                results@.contains(word) <==> old(results)@.contains(word) || (encrypts(
                    word,
                    target,
                ) && begins_with(word, chosen@, position + 1) && candidates_via(
                    op,
                    acc,
                    numbers_from(word, position as int),
                    ops@,
                ).contains(target)) by {
                let operands = numbers_from(word, position as int);
                assert(operands.drop_first() == numbers_from(word, position + 1));
            }
        }
    }
}

/// What a list holds once a word is put at its end, or not.
proof fn lemma_pushed(
    before: Seq<[char; CORE_LENGTH]>,
    word: [char; CORE_LENGTH],
    keep: bool,
    other: [char; CORE_LENGTH],
)
    ensures
        (if keep {
            before.push(word)
        } else {
            before
        }).contains(other) <==> before.contains(other) || (keep && other == word),
{
    if keep {
        let after = before.push(word);
        assert(after.last() == word);
        if before.contains(other) {
            let i = choose|i: int| 0 <= i < before.len() && before[i] == other;
            assert(after[i] == other);
        }
        if after.contains(other) {
            let i = choose|i: int| 0 <= i < after.len() && after[i] == other;
            if i < before.len() {
                assert(before[i] == other);
            }
        }
    }
}

/// Leaving out repeated neighbours neither loses a word nor adds one.
proof fn lemma_without_repeats_keeps(words: Seq<[char; CORE_LENGTH]>, word: [char; CORE_LENGTH])
    ensures
        without_repeats(words).contains(word) <==> words.contains(word),
        words.len() > 0 ==> without_repeats(words).len() > 0 && without_repeats(words)[0]
            == words[0],
    decreases words.len(),
{
    if words.len() > 1 {
        let rest = words.drop_first();
        let kept = without_repeats(rest);
        lemma_without_repeats_keeps(rest, word);
        if words.contains(word) {
            let i = choose|i: int| 0 <= i < words.len() && words[i] == word;
            if i > 0 {
                assert(rest[i - 1] == word);
            }
        }
        if rest.contains(word) {
            let i = choose|i: int| 0 <= i < rest.len() && rest[i] == word;
            assert(words[i + 1] == word);
        }
        if words[0] != words[1] {
            let joined = seq![words[0]] + kept;
            assert(joined[0] == words[0]);
            if kept.contains(word) {
                let i = choose|i: int| 0 <= i < kept.len() && kept[i] == word;
                assert(joined[i + 1] == word);
            }
            if joined.contains(word) {
                let i = choose|i: int| 0 <= i < joined.len() && joined[i] == word;
                if i > 0 {
                    assert(kept[i - 1] == word);
                }
            }
        }
    }
}

/// An ascending list without repeated neighbours holds no word twice: each
/// of its words comes before the next.
proof fn lemma_without_repeats_ascends(words: Seq<[char; CORE_LENGTH]>)
    requires
        is_ascending(words),
    ensures
        is_strictly_ascending(without_repeats(words)),
    decreases words.len(),
{
    if words.len() > 1 {
        let rest = words.drop_first();
        let kept = without_repeats(rest);
        assert(is_ascending(rest));
        lemma_without_repeats_ascends(rest);
        if words[0] != words[1] {
            let joined = seq![words[0]] + kept;
            assert(!comes_before(words[1], words[0]));
            if !comes_before(words[0], words[1]) {
                assert(words[0] =~= words[1]);
            }
            assert forall|i: int, j: int| 0 <= i < j < joined.len() implies comes_before(
                joined[i],
                joined[j],
            ) by {
                if i == 0 {
                    lemma_without_repeats_keeps(rest, kept[j - 1]);
                    let k = choose|k: int| 0 <= k < rest.len() && rest[k] == kept[j - 1];
                    if k > 0 {
                        assert(!comes_before(words[k + 1], words[1]));
                    }
                }
            }
        }
    }
}

} // verus!
