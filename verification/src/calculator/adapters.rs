//! The adaptors of `itertools` that the solvers call, each with what the
//! solvers rely on. Nothing here is proved: the contracts restate what
//! `itertools` documents.
use super::CORE_LENGTH;
use itertools::Itertools;
use vstd::prelude::*;

verus! {

/// `Itertools::collect_array` on the numbers of a vector. The numbers come
/// back as an array, in their order, when there are exactly `CORE_LENGTH` of
/// them; with fewer or more there is no array.
#[verifier::external_body]
pub(crate) fn collect_array(numbers: Vec<u32>) -> (array: Option<[u32; CORE_LENGTH]>)
    ensures
        array is Some <==> numbers@.len() == CORE_LENGTH,
        array matches Some(collected) ==> collected@ == numbers@,
{
    numbers.into_iter().collect_array()
}

/// The order of words: `a` comes before `b` when, at the first place where
/// the two differ, `a` has the lesser character.
pub open spec fn comes_before(a: [char; CORE_LENGTH], b: [char; CORE_LENGTH]) -> bool {
    a[0] < b[0] || (a[0] == b[0] && (a[1] < b[1] || (a[1] == b[1] && (a[2] < b[2] || (a[2] == b[2]
        && a[3] < b[3])))))
}

/// No word of the list comes before a word that stands earlier in it.
pub open spec fn is_ascending(words: Seq<[char; CORE_LENGTH]>) -> bool {
    forall|i: int, j: int| 0 <= i < j < words.len() ==> !comes_before(words[j], words[i])
}

/// Every word of the list comes before the words that stand later in it.
pub open spec fn is_strictly_ascending(words: Seq<[char; CORE_LENGTH]>) -> bool {
    forall|i: int, j: int| 0 <= i < j < words.len() ==> comes_before(words[i], words[j])
}

/// The list with each run of equal neighbours reduced to one word.
pub open spec fn without_repeats(words: Seq<[char; CORE_LENGTH]>) -> Seq<[char; CORE_LENGTH]>
    decreases words.len(),
{
    if words.len() <= 1 {
        words
    } else if words[0] == words[1] {
        without_repeats(words.drop_first())
    } else {
        seq![words[0]] + without_repeats(words.drop_first())
    }
}

/// `Itertools::sorted` on a list of words. The result holds the same words,
/// each as often as the list did, in ascending order: arrays of characters
/// are ordered place by place, characters by their code.
#[verifier::external_body]
pub(crate) fn sorted(words: Vec<[char; CORE_LENGTH]>) -> (ordered: Vec<[char; CORE_LENGTH]>)
    ensures
        ordered@.to_multiset() == words@.to_multiset(),
        is_ascending(ordered@),
{
    words.into_iter().sorted().collect()
}

/// `Itertools::dedup` on a list of words. Of each run of equal neighbours
/// one word stays; the others leave, and nothing else changes.
#[verifier::external_body]
pub(crate) fn dedup(words: Vec<[char; CORE_LENGTH]>) -> (kept: Vec<[char; CORE_LENGTH]>)
    ensures
        kept@ == without_repeats(words@),
{
    words.into_iter().dedup().collect()
}

} // verus!
