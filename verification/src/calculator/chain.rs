//! The mathematical model of a chain: the paths through the operators, what
//! each path gives, and the verdict of a search over all of them.
use super::decryptor::DecryptError;
use super::operation::{Operation, Step};
use vstd::prelude::*;

verus! {

/// A path spends operators of `ops`, each at most once.
pub open spec fn is_path(path: Seq<Operation>, ops: Set<Operation>) -> bool {
    &&& forall|i: int| 0 <= i < path.len() ==> ops.contains(#[trigger] path[i])
    &&& forall|i: int, j: int| 0 <= i < j < path.len() ==> path[i] != path[j]
}

/// Runs a path: its operators are applied in turn to the accumulator and the
/// operands, one operator per operand. The run ends with the first step that
/// gives no value, or when the path or the operands are used up.
pub open spec fn run(acc: u32, operands: Seq<u32>, path: Seq<Operation>) -> Step
    decreases path.len(),
{
    if path.len() == 0 || operands.len() == 0 {
        Step::Value(acc)
    } else {
        match path[0].applied(acc, operands[0]) {
            Step::Value(next) => run(next, operands.drop_first(), path.drop_first()),
            other => other,
        }
    }
}

/// Some path runs into a product that does not fit in 32 bits.
pub open spec fn overflows(acc: u32, operands: Seq<u32>, ops: Set<Operation>) -> bool {
    exists|path: Seq<Operation>|
        is_path(path, ops) && #[trigger] run(acc, operands, path) == Step::Overflow
}

/// `value` is what some path gives that has one valid operator for each
/// operand.
pub open spec fn is_candidate(
    acc: u32,
    operands: Seq<u32>,
    ops: Set<Operation>,
    value: u32,
) -> bool {
    exists|path: Seq<Operation>|
        is_path(path, ops) && path.len() == operands.len() && #[trigger] run(acc, operands, path)
            == Step::Value(value)
}

/// The values of all the paths that have one valid operator for each operand.
pub open spec fn candidates(acc: u32, operands: Seq<u32>, ops: Set<Operation>) -> Set<u32> {
    Set::new(|value: u32| is_candidate(acc, operands, ops, value))
}

/// `value` is the minimum of `values`.
pub open spec fn is_least(values: Set<u32>, value: u32) -> bool {
    &&& values.contains(value)
    &&& forall|other: u32| values.contains(other) ==> value <= other
}

/// The verdict of a search: an overflow anywhere is reported; without one,
/// the verdict is the least candidate, and `NoSolution` if there is none.
pub open spec fn verdict(overflow: bool, values: Set<u32>) -> Result<u32, DecryptError> {
    if overflow {
        Err(DecryptError::Overflow)
    } else if exists|value: u32| is_least(values, value) {
        Ok(choose|value: u32| is_least(values, value))
    } else {
        Err(DecryptError::NoSolution)
    }
}

/// `found` is the verdict of a search with these candidates, clause by
/// clause.
pub open spec fn is_verdict(
    found: Result<u32, DecryptError>,
    overflow: bool,
    values: Set<u32>,
) -> bool {
    match found {
        Ok(core) => !overflow && is_least(values, core),
        Err(DecryptError::Overflow) => overflow,
        Err(DecryptError::NoSolution) => !overflow && forall|value: u32| !values.contains(value),
        Err(_) => false,
    }
}

/// The verdict of the search that starts from the accumulator `acc` and has
/// `operands` and `ops` left.
pub open spec fn search(acc: u32, operands: Seq<u32>, ops: Set<Operation>) -> Result<
    u32,
    DecryptError,
> {
    verdict(overflows(acc, operands, ops), candidates(acc, operands, ops))
}

/// Overflow on the paths that begin with `op`.
pub open spec fn overflows_via(
    op: Operation,
    acc: u32,
    operands: Seq<u32>,
    ops: Set<Operation>,
) -> bool {
    ops.contains(op) && match op.applied(acc, operands[0]) {
        Step::Value(next) => overflows(next, operands.drop_first(), ops.remove(op)),
        Step::Invalid => false,
        Step::Overflow => true,
    }
}

/// The candidates of the paths that begin with `op`.
pub open spec fn candidates_via(
    op: Operation,
    acc: u32,
    operands: Seq<u32>,
    ops: Set<Operation>,
) -> Set<u32> {
    if ops.contains(op) {
        match op.applied(acc, operands[0]) {
            Step::Value(next) => candidates(next, operands.drop_first(), ops.remove(op)),
            _ => Set::empty(),
        }
    } else {
        Set::empty()
    }
}

/// Of two verdicts the one that stands for both searches together: an
/// overflow in either, else the lesser core.
pub open spec fn merged(a: Result<u32, DecryptError>, b: Result<u32, DecryptError>) -> Result<
    u32,
    DecryptError,
> {
    match (a, b) {
        (Err(DecryptError::Overflow), _) => Err(DecryptError::Overflow),
        (_, Err(DecryptError::Overflow)) => Err(DecryptError::Overflow),
        (Ok(x), Ok(y)) => if x <= y {
            Ok(x)
        } else {
            Ok(y)
        },
        (Ok(x), Err(_)) => Ok(x),
        (Err(_), Ok(y)) => Ok(y),
        (Err(e), Err(_)) => Err(e),
    }
}

/// Merging the verdicts of two searches gives the verdict of the search
/// over the paths of both.
pub proof fn lemma_merged_verdict(
    a: Result<u32, DecryptError>,
    overflow_a: bool,
    values_a: Set<u32>,
    b: Result<u32, DecryptError>,
    overflow_b: bool,
    values_b: Set<u32>,
)
    requires
        is_verdict(a, overflow_a, values_a),
        is_verdict(b, overflow_b, values_b),
    ensures
        is_verdict(merged(a, b), overflow_a || overflow_b, values_a.union(values_b)),
{
}

/// The verdict of the search along the paths that begin with `op`.
pub open spec fn search_via(
    op: Operation,
    acc: u32,
    operands: Seq<u32>,
    ops: Set<Operation>,
) -> Result<u32, DecryptError> {
    if ops.contains(op) {
        match op.applied(acc, operands[0]) {
            Step::Value(next) => search(next, operands.drop_first(), ops.remove(op)),
            Step::Invalid => Err(DecryptError::NoSolution),
            Step::Overflow => Err(DecryptError::Overflow),
        }
    } else {
        Err(DecryptError::NoSolution)
    }
}

/// A set has at most one minimum, so a search has exactly one verdict.
pub proof fn lemma_verdict_unique(
    found: Result<u32, DecryptError>,
    overflow: bool,
    values: Set<u32>,
)
    requires
        is_verdict(found, overflow, values),
    ensures
        found == verdict(overflow, values),
{
}

/// With no operand left, the accumulator is the one candidate.
pub proof fn lemma_search_done(acc: u32, operands: Seq<u32>, ops: Set<Operation>)
    requires
        operands.len() == 0,
    ensures
        !overflows(acc, operands, ops),
        candidates(acc, operands, ops) == set![acc],
{
    let empty = Seq::<Operation>::empty();
    assert(is_path(empty, ops) && run(acc, operands, empty) == Step::Value(acc));
}

/// With an operand left, every path begins with one of the three operators:
/// the search is the union of the three searches that follow them.
pub proof fn lemma_search_splits(acc: u32, operands: Seq<u32>, ops: Set<Operation>)
    requires
        operands.len() > 0,
    ensures
        overflows(acc, operands, ops) <==> overflows_via(Operation::Sub, acc, operands, ops)
            || overflows_via(Operation::Mul, acc, operands, ops) || overflows_via(
            Operation::Div,
            acc,
            operands,
            ops,
        ),
        candidates(acc, operands, ops) == candidates_via(Operation::Sub, acc, operands, ops).union(
            candidates_via(Operation::Mul, acc, operands, ops),
        ).union(candidates_via(Operation::Div, acc, operands, ops)),
{
    let rest = operands.drop_first();
    if overflows(acc, operands, ops) {
        let path = choose|path: Seq<Operation>|
            is_path(path, ops) && #[trigger] run(acc, operands, path) == Step::Overflow;
        lemma_path_tail(path, ops);
        if let Step::Value(next) = path[0].applied(acc, operands[0]) {
            assert(run(next, rest, path.drop_first()) == Step::Overflow);
        }
    }
    assert forall|op: Operation| overflows_via(op, acc, operands, ops) implies overflows(
        acc,
        operands,
        ops,
    ) by {
        match op.applied(acc, operands[0]) {
            Step::Value(next) => {
                let tail = choose|tail: Seq<Operation>|
                    is_path(tail, ops.remove(op)) && #[trigger] run(next, rest, tail)
                        == Step::Overflow;
                lemma_path_cons(op, tail, ops);
                assert(run(acc, operands, seq![op] + tail) == Step::Overflow);
            },
            _ => {
                lemma_path_cons(op, Seq::empty(), ops);
                assert(run(acc, operands, seq![op] + Seq::empty()) == Step::Overflow);
            },
        }
    }
    let joined = candidates_via(Operation::Sub, acc, operands, ops).union(
        candidates_via(Operation::Mul, acc, operands, ops),
    ).union(candidates_via(Operation::Div, acc, operands, ops));
    assert forall|value: u32|
        candidates(acc, operands, ops).contains(value) implies joined.contains(value) by {
        let path = choose|path: Seq<Operation>|
            is_path(path, ops) && path.len() == operands.len() && #[trigger] run(
                acc,
                operands,
                path,
            ) == Step::Value(value);
        lemma_path_tail(path, ops);
        let next = path[0].applied(acc, operands[0])->Value_0;
        assert(run(next, rest, path.drop_first()) == Step::Value(value));
    }
    assert forall|op: Operation, value: u32|
        candidates_via(op, acc, operands, ops).contains(value) implies candidates(
        acc,
        operands,
        ops,
    ).contains(value) by {
        let next = op.applied(acc, operands[0])->Value_0;
        let tail = choose|tail: Seq<Operation>|
            is_path(tail, ops.remove(op)) && tail.len() == rest.len() && #[trigger] run(
                next,
                rest,
                tail,
            ) == Step::Value(value);
        lemma_path_cons(op, tail, ops);
        assert(run(acc, operands, seq![op] + tail) == Step::Value(value));
    }
}

/// The search, operand by operand: with no operand left its verdict is the
/// accumulator; with an operand left it is the three verdicts that follow the
/// three operators, merged. Every search has a verdict that meets
/// `is_verdict`: where there is a candidate, there is a least one.
pub proof fn lemma_search_unfolds(acc: u32, operands: Seq<u32>, ops: Set<Operation>)
    ensures
        is_verdict(
            search(acc, operands, ops),
            overflows(acc, operands, ops),
            candidates(acc, operands, ops),
        ),
        operands.len() == 0 ==> search(acc, operands, ops) == Ok::<u32, DecryptError>(acc),
        operands.len() > 0 ==> search(acc, operands, ops) == merged(
            merged(
                search_via(Operation::Sub, acc, operands, ops),
                search_via(Operation::Mul, acc, operands, ops),
            ),
            search_via(Operation::Div, acc, operands, ops),
        ),
    decreases operands.len(), 1nat,
{
    let overflow = overflows(acc, operands, ops);
    let values = candidates(acc, operands, ops);
    if operands.len() == 0 {
        lemma_search_done(acc, operands, ops);
        lemma_verdict_unique(Ok(acc), overflow, values);
    } else {
        lemma_search_via(Operation::Sub, acc, operands, ops);
        lemma_search_via(Operation::Mul, acc, operands, ops);
        lemma_search_via(Operation::Div, acc, operands, ops);
        let sub = search_via(Operation::Sub, acc, operands, ops);
        let mul = search_via(Operation::Mul, acc, operands, ops);
        let div = search_via(Operation::Div, acc, operands, ops);
        lemma_merged_verdict(
            sub,
            overflows_via(Operation::Sub, acc, operands, ops),
            candidates_via(Operation::Sub, acc, operands, ops),
            mul,
            overflows_via(Operation::Mul, acc, operands, ops),
            candidates_via(Operation::Mul, acc, operands, ops),
        );
        lemma_merged_verdict(
            merged(sub, mul),
            overflows_via(Operation::Sub, acc, operands, ops) || overflows_via(
                Operation::Mul,
                acc,
                operands,
                ops,
            ),
            candidates_via(Operation::Sub, acc, operands, ops).union(
                candidates_via(Operation::Mul, acc, operands, ops),
            ),
            div,
            overflows_via(Operation::Div, acc, operands, ops),
            candidates_via(Operation::Div, acc, operands, ops),
        );
        lemma_search_splits(acc, operands, ops);
        lemma_verdict_unique(merged(merged(sub, mul), div), overflow, values);
    }
}

/// The greatest value that a run can reach in `steps` steps from an
/// accumulator of at most `bound`, with operands of at most `limit`.
pub open spec fn grown(bound: nat, limit: nat, steps: nat) -> nat
    decreases steps,
{
    if steps == 0 {
        bound
    } else {
        grown(bound * limit, limit, (steps - 1) as nat)
    }
}

/// A search overflows only if a product can pass 32 bits: with operands
/// between 1 and `limit`, and an accumulator so small that even multiplying
/// at every step would fit, no path overflows.
pub proof fn lemma_small_operands_never_overflow(
    acc: u32,
    operands: Seq<u32>,
    ops: Set<Operation>,
    bound: nat,
    limit: nat,
)
    requires
        acc <= bound,
        forall|i: int| 0 <= i < operands.len() ==> 1 <= #[trigger] operands[i] <= limit,
        grown(bound, limit, operands.len()) <= u32::MAX,
    ensures
        !overflows(acc, operands, ops),
    decreases operands.len(),
{
    if operands.len() == 0 {
        lemma_search_done(acc, operands, ops);
    } else {
        let rest = operands.drop_first();
        let first = operands[0];
        lemma_search_splits(acc, operands, ops);
        lemma_grown_at_least(bound * limit, limit, rest.len());
        assert(acc * first <= bound * limit) by (nonlinear_arith)
            requires
                acc <= bound,
                first <= limit,
        ;
        assert(bound <= bound * limit) by (nonlinear_arith)
            requires
                1 <= limit,
        ;
        assert(forall|i: int| 0 <= i < rest.len() ==> 1 <= #[trigger] rest[i] <= limit);
        assert forall|op: Operation| !overflows_via(op, acc, operands, ops) by {
            if let Step::Value(next) = op.applied(acc, first) {
                assert(next <= bound * limit) by {
                    if op == Operation::Div {
                        assert(acc / first <= acc) by (nonlinear_arith)
                            requires
                                first >= 1,
                        ;
                    }
                }
                lemma_small_operands_never_overflow(
                    next,
                    rest,
                    ops.remove(op),
                    bound * limit,
                    limit,
                );
            }
        }
    }
}

/// What can be reached in some steps is at least what there is at the start.
proof fn lemma_grown_at_least(bound: nat, limit: nat, steps: nat)
    requires
        1 <= limit,
    ensures
        bound <= grown(bound, limit, steps),
    decreases steps,
{
    if steps > 0 {
        lemma_grown_at_least(bound * limit, limit, (steps - 1) as nat);
        assert(bound <= bound * limit) by (nonlinear_arith)
            requires
                1 <= limit,
        ;
    }
}

/// The verdict along the paths that begin with `op` is the verdict of those
/// paths' overflows and candidates.
proof fn lemma_search_via(op: Operation, acc: u32, operands: Seq<u32>, ops: Set<Operation>)
    requires
        operands.len() > 0,
    ensures
        is_verdict(
            search_via(op, acc, operands, ops),
            overflows_via(op, acc, operands, ops),
            candidates_via(op, acc, operands, ops),
        ),
    decreases operands.len(), 0nat,
{
    if ops.contains(op) {
        if let Step::Value(next) = op.applied(acc, operands[0]) {
            lemma_search_unfolds(next, operands.drop_first(), ops.remove(op));
        }
    }
}

/// What follows the first operator of a path is a path that cannot spend
/// that operator again.
proof fn lemma_path_tail(path: Seq<Operation>, ops: Set<Operation>)
    requires
        is_path(path, ops),
        path.len() > 0,
    ensures
        ops.contains(path[0]),
        is_path(path.drop_first(), ops.remove(path[0])),
{
    let tail = path.drop_first();
    assert(forall|i: int|
        0 <= i < tail.len() ==> ops.remove(path[0]).contains(#[trigger] tail[i]));
    assert(forall|i: int, j: int| 0 <= i < j < tail.len() ==> tail[i] != tail[j]);
}

/// An operator that is still available, put before a path that does not spend it,
/// makes a path.
proof fn lemma_path_cons(op: Operation, tail: Seq<Operation>, ops: Set<Operation>)
    requires
        ops.contains(op),
        is_path(tail, ops.remove(op)),
    ensures
        is_path(seq![op] + tail, ops),
        (seq![op] + tail)[0] == op,
        (seq![op] + tail).drop_first() == tail,
{
    let path = seq![op] + tail;
    assert(forall|i: int| 0 <= i < path.len() ==> ops.contains(#[trigger] path[i]));
    assert(forall|i: int, j: int| 0 <= i < j < path.len() ==> path[i] != path[j]);
}

} // verus!
