//! Solver for the four-operand arithmetic cipher of the numeric-core puzzles.
//!
//! A cypher is a chain of four operands, written as four numbers or as a
//! word of four letters, `A` being 1 and `Z` 26. The first operand seeds an
//! accumulator; each of the other three is combined with it by one of the
//! operators subtraction, multiplication and division, every operator being
//! spent exactly once. A subtraction is valid when it does not go below
//! zero, a division when it leaves no remainder. The core of a cypher is the
//! least value that any valid order of the operators reaches.
//!
//! [`calculator`] holds the two solvers: [`calculator::decryptor`] computes
//! the core of a cypher, and [`calculator::encryptor`] lists every word that
//! has a given core. Their contracts are stated over the model of
//! [`calculator::chain`].
//!
//! [`cli`] holds the lines that the command line prints for decoded words.
//!
//! [`ui`] holds the state of the interactive pages that sit on the solvers:
//! what each key changes, and the lines of text that each page shows. The
//! terminal itself is not its business.
pub mod calculator;
pub mod cli;
pub mod ui;
