//! Stateful unary nodes: each owns one scalar memory cell that is read and
//! overwritten on every evaluation, giving a compiled tree simple temporal
//! dynamics across a sequential pass over a dataset.

use vstd::prelude::*;
use crate::fx::{FX_SCALE, clamp_unit, clamp_unit_spec, half, half_spec};

verus! {

/// The closed set of stateful operators.
#[derive(Clone, Copy)]
pub enum StateOp {
    Delay,
    Ma2,
    Diff,
}

/// The value a stateful operator produces from the current input and the
/// memory cell's previous content.
pub open spec fn sop_spec(op: StateOp, curr: int, prev: int) -> int {
    match op {
        StateOp::Delay => prev,
        StateOp::Ma2 => half_spec(curr + prev),
        StateOp::Diff => clamp_unit_spec(curr - prev),
    }
}

/// Pass the previous input through, one step late.
pub fn delay(_curr: i64, prev: i64) -> (r: i64)
    ensures
        r == sop_spec(StateOp::Delay, 0, prev as int),
{
    prev
}

/// Two-point moving average: half the sum of this input and the last one.
pub fn ma2(curr: i64, prev: i64) -> (r: i64)
    requires
        -(FX_SCALE as int) <= curr <= FX_SCALE as int,
        -(FX_SCALE as int) <= prev <= FX_SCALE as int,
    ensures
        r == sop_spec(StateOp::Ma2, curr as int, prev as int),
{
    half(curr + prev)
}

/// First difference of the input stream, clamped to the unit interval.
pub fn diff(curr: i64, prev: i64) -> (r: i64)
    requires
        -(FX_SCALE as int) <= curr <= FX_SCALE as int,
        -(FX_SCALE as int) <= prev <= FX_SCALE as int,
    ensures
        r == sop_spec(StateOp::Diff, curr as int, prev as int),
{
    clamp_unit(curr - prev)
}

/// Apply a stateful operator to the current input and the remembered one.
pub fn apply_sop(op: StateOp, curr: i64, prev: i64) -> (r: i64)
    requires
        -(FX_SCALE as int) <= curr <= FX_SCALE as int,
        -(FX_SCALE as int) <= prev <= FX_SCALE as int,
    ensures
        r == sop_spec(op, curr as int, prev as int),
        -(FX_SCALE as int) <= r <= FX_SCALE as int,
{
    match op {
        StateOp::Delay => delay(curr, prev),
        StateOp::Ma2 => ma2(curr, prev),
        StateOp::Diff => diff(curr, prev),
    }
}

/// One registry entry: a stateful operator together with its symbol.
#[derive(Clone, Copy)]
pub struct StateFunctionDescription {
    pub symbol: &'static str,
    pub op: StateOp,
}

/// Number of registered stateful operators.
pub const SFN_NUM: usize = 3;

/// The fixed stateful-operator registry, in sampling order.
pub fn sfregistry() -> (v: Vec<StateFunctionDescription>)
    ensures
        v@.len() == SFN_NUM,
        v@[0].op == StateOp::Delay && v@[0].symbol@ == "Delay"@,
        v@[1].op == StateOp::Ma2 && v@[1].symbol@ == "Ma2"@,
        v@[2].op == StateOp::Diff && v@[2].symbol@ == "Diff"@,
{
    let mut v: Vec<StateFunctionDescription> = Vec::new();
    v.push(StateFunctionDescription { symbol: "Delay", op: StateOp::Delay });
    v.push(StateFunctionDescription { symbol: "Ma2", op: StateOp::Ma2 });
    v.push(StateFunctionDescription { symbol: "Diff", op: StateOp::Diff });
    v
}

/// A stateful codon: registry entry, one scalar of memory (neutral value 0),
/// and the cached position of its argument, filled in by translation.
pub struct StateFunction {
    pub fd: StateFunctionDescription,
    pub buf: i64,
    pub first_arg_position: usize,
}

impl StateFunction {
    pub fn new(fd: StateFunctionDescription) -> (r: Self)
        ensures
            r.fd == fd,
            r.buf == 0,
            r.first_arg_position == 0,
    {
        StateFunction { fd, buf: 0, first_arg_position: 0 }
    }

    /// Produce this node's output for the current input and remember the
    /// input in the memory cell.
    pub fn eval(&mut self, curr: i64) -> (r: i64)
        requires
            -(FX_SCALE as int) <= curr <= FX_SCALE as int,
            -(FX_SCALE as int) <= old(self).buf <= FX_SCALE as int,
        ensures
            r == sop_spec(old(self).fd.op, curr as int, old(self).buf as int),
            final(self).buf == curr,
            final(self).fd == old(self).fd,
            final(self).first_arg_position == old(self).first_arg_position,
            -(FX_SCALE as int) <= r <= FX_SCALE as int,
    {
        let ret = match self.fd.op {
            StateOp::Delay => delay(curr, self.buf),
            StateOp::Ma2 => ma2(curr, self.buf),
            StateOp::Diff => diff(curr, self.buf),
        };
        self.buf = curr;
        ret
    }
}

} // verus!
