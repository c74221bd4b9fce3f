//! The three operators of a chain, and the set of those not yet spent.
use vstd::prelude::*;

verus! {

/// One operator of a chain. The first operand of a cypher is always added
/// to an empty accumulator; the three operands after it are subtracted,
/// multiplied and divided, in some order.
#[derive(Debug, Clone, Copy, PartialEq, Eq, Structural)]
pub enum Operation {
    Sub,
    Mul,
    Div,
}

/// What one operator gives on an accumulator and an operand.
#[derive(Debug, Clone, Copy, PartialEq, Eq, Structural)]
pub enum Step {
    /// The operator is valid here and gives this value.
    Value(u32),
    /// The operator is not valid here: the difference would be negative, or
    /// the quotient would not be a whole number.
    Invalid,
    /// The product does not fit in 32 bits.
    Overflow,
}

impl Operation {
    /// The value of `a OP b`.
    ///
    /// | Op    | Validity                            |
    /// | ----- | :---------------------------------- |
    /// | `Sub` | The result must not be negative     |
    /// | `Mul` | Always valid; the result must fit   |
    /// | `Div` | The result must be a whole number   |
    pub open spec fn applied(self, a: u32, b: u32) -> Step {
        match self {
            Operation::Sub => if a >= b {
                Step::Value((a - b) as u32)
            } else {
                Step::Invalid
            },
            Operation::Mul => if a * b <= u32::MAX {
                Step::Value((a * b) as u32)
            } else {
                Step::Overflow
            },
            Operation::Div => if b != 0 && a % b == 0 {
                Step::Value(a / b)
            } else {
                Step::Invalid
            },
        }
    }

    /// Applies the operator to `a` and `b`.
    pub fn apply(self, a: u32, b: u32) -> (step: Step)
        ensures
            step == self.applied(a, b),
    {
        match self {
            Operation::Sub => match a.checked_sub(b) {
                Some(value) => Step::Value(value),
                None => Step::Invalid,
            },
            Operation::Mul => match a.checked_mul(b) {
                Some(value) => Step::Value(value),
                None => Step::Overflow,
            },
            Operation::Div => {
                if b == 0 || a % b != 0 {
                    return Step::Invalid;
                }
                Step::Value(a / b)
            },
        }
    }
}

/// The operators that a chain has not spent yet.
#[derive(Debug, Clone, Copy, PartialEq, Eq, Structural)]
pub struct OperatorSet {
    sub: bool,
    mul: bool,
    div: bool,
}

impl View for OperatorSet {
    type V = Set<Operation>;

    closed spec fn view(&self) -> Set<Operation> {
        Set::new(
            |op: Operation|
                match op {
                    Operation::Sub => self.sub,
                    Operation::Mul => self.mul,
                    Operation::Div => self.div,
                },
        )
    }
}

impl OperatorSet {
    /// The set of all three operators.
    pub fn all() -> (ops: Self)
        ensures
            ops@ == Set::<Operation>::full(),
    {
        let ops = OperatorSet { sub: true, mul: true, div: true };
        ops
    }

    /// The set of no operator.
    pub fn empty() -> (ops: Self)
        ensures
            ops@ == Set::<Operation>::empty(),
    {
        let ops = OperatorSet { sub: false, mul: false, div: false };
        ops
    }

    /// Whether `op` is still available.
    pub fn contains(&self, op: Operation) -> (found: bool)
        ensures
            found == self@.contains(op),
    {
        match op {
            Operation::Sub => self.sub,
            Operation::Mul => self.mul,
            Operation::Div => self.div,
        }
    }

    /// Whether every operator is spent.
    pub fn is_empty(&self) -> (none: bool)
        ensures
            none == (self@ == Set::<Operation>::empty()),
    {
        let none = !self.sub && !self.mul && !self.div;
        proof {
            if none {
                assert(self@ =~= Set::<Operation>::empty());
            } else if self.sub {
                assert(self@.contains(Operation::Sub));
            } else if self.mul {
                assert(self@.contains(Operation::Mul));
            } else {
                assert(self@.contains(Operation::Div));
            }
        }
        none
    }

    /// The set without `op`: what is left once a chain has spent it.
    pub fn difference(&self, op: Operation) -> (rest: Self)
        ensures
            rest@ == self@.remove(op),
    {
        let rest = match op {
            Operation::Sub => OperatorSet { sub: false, mul: self.mul, div: self.div },
            Operation::Mul => OperatorSet { sub: self.sub, mul: false, div: self.div },
            Operation::Div => OperatorSet { sub: self.sub, mul: self.mul, div: false },
        };
        rest
    }
}

} // verus!
