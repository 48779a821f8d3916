//! Pure, stateless operator nodes: minimum, maximum, average and negation.

use vstd::prelude::*;
use crate::fx::{FX_SCALE, half, half_spec};

verus! {

/// The closed set of pure operators an expression tree may use.
#[derive(Clone, Copy)]
pub enum Op {
    Min,
    Max,
    Avg,
    Neg,
}

/// How many arguments an operator consumes.
pub open spec fn op_arity(op: Op) -> int {
    match op {
        Op::Neg => 1,
        _ => 2,
    }
}

/// The value an operator produces; unary operators ignore `y`.
pub open spec fn op_spec(op: Op, x: int, y: int) -> int {
    match op {
        Op::Min => if x <= y { x } else { y },
        Op::Max => if x >= y { x } else { y },
        Op::Avg => half_spec(x + y),
        Op::Neg => -x,
    }
}

/// Average of two unit signals, truncated toward zero.
pub fn av(x: i64, y: i64) -> (r: i64)
    requires
        -(FX_SCALE as int) <= x <= FX_SCALE as int,
        -(FX_SCALE as int) <= y <= FX_SCALE as int,
    ensures
        r == op_spec(Op::Avg, x as int, y as int),
{
    half(x + y)
}

/// Negation; the second argument of a binary call site is ignored.
pub fn ne(x: i64, _y: i64) -> (r: i64)
    requires
        -(FX_SCALE as int) <= x <= FX_SCALE as int,
    ensures
        r == op_spec(Op::Neg, x as int, 0),
{
    -x
}

/// One registry entry: an operator together with its symbol and arity.
#[derive(Clone, Copy)]
pub struct FunctionDescription {
    pub symbol: &'static str,
    pub arity: u8,
    pub op: Op,
}

/// Number of registered pure operators.
pub const FN_NUM: usize = 4;

/// The fixed operator registry, in the order non-terminal sampling uses.
pub fn fregistry() -> (v: Vec<FunctionDescription>)
    ensures
        v@.len() == FN_NUM,
        v@[0].op == Op::Min && v@[0].arity == 2 && v@[0].symbol@ == "Min"@,
        v@[1].op == Op::Max && v@[1].arity == 2 && v@[1].symbol@ == "Max"@,
        v@[2].op == Op::Avg && v@[2].arity == 2 && v@[2].symbol@ == "Avg"@,
        v@[3].op == Op::Neg && v@[3].arity == 1 && v@[3].symbol@ == "Neg"@,
{
    let mut v: Vec<FunctionDescription> = Vec::new();
    v.push(FunctionDescription { symbol: "Min", arity: 2, op: Op::Min });
    v.push(FunctionDescription { symbol: "Max", arity: 2, op: Op::Max });
    v.push(FunctionDescription { symbol: "Avg", arity: 2, op: Op::Avg });
    v.push(FunctionDescription { symbol: "Neg", arity: 1, op: Op::Neg });
    v
}

/// Apply a registered operator to two unit signals.
pub fn apply_op(op: Op, x: i64, y: i64) -> (r: i64)
    requires
        -(FX_SCALE as int) <= x <= FX_SCALE as int,
        -(FX_SCALE as int) <= y <= FX_SCALE as int,
    ensures
        r == op_spec(op, x as int, y as int),
        -(FX_SCALE as int) <= r <= FX_SCALE as int,
{
    match op {
        Op::Min => if x <= y { x } else { y },
        Op::Max => if x >= y { x } else { y },
        Op::Avg => av(x, y),
        Op::Neg => ne(x, y),
    }
}

/// A pure-operator codon: the registry entry plus the cached position of its
/// first argument, filled in by translation.
pub struct Function {
    pub fd: FunctionDescription,
    pub first_arg_position: usize,
}

impl Function {
    pub fn new(fd: FunctionDescription) -> (r: Self)
        ensures
            r.fd == fd,
            r.first_arg_position == 0,
    {
        Function { fd, first_arg_position: 0 }
    }
}

} // verus!
