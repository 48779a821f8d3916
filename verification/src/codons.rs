//! The tagged union over all node kinds, and its ghost view.

use vstd::prelude::*;
use crate::delay_line::DelayLine;
use crate::feedback::Feedback;
use crate::functions::{Function, Op, op_arity, op_spec};
use crate::fx::{FX_SCALE, clamp_unit_spec};
use crate::state_functions::{StateFunction, StateOp, sop_spec};
use crate::terminal::Terminal;

verus! {

/// The identity of a codon: which node it decodes to, stripped of the
/// mutable translation and memory state.
pub ghost enum CodonKind {
    Term { idx: int },
    Fun { op: Op },
    SFun { sop: StateOp },
    Fb { idx: int },
}

/// The full ghost view of a codon: identity, cached first-argument
/// position, memory-cell content and symbol.
pub ghost struct CodonV {
    pub kind: CodonKind,
    pub fap: int,
    pub buf: int,
    pub sym: Seq<char>,
}

/// How many argument slots a codon consumes during translation.
pub open spec fn kind_arity(k: CodonKind) -> int {
    match k {
        CodonKind::Term { .. } => 0,
        CodonKind::Fb { .. } => 0,
        CodonKind::Fun { op } => op_arity(op),
        CodonKind::SFun { .. } => 1,
    }
}

/// Whether a codon consumes no argument slots.
pub open spec fn kind_is_terminal(k: CodonKind) -> bool {
    kind_arity(k) == 0
}

/// A codon: one encoded unit of the genome.
pub enum Codon {
    Function(Function),
    StateFunction(StateFunction),
    Terminal(Terminal),
    Feedback(Feedback),
}

impl View for Codon {
    type V = CodonV;

    open spec fn view(&self) -> CodonV {
        match self {
            Codon::Function(f) => CodonV {
                kind: CodonKind::Fun { op: f.fd.op },
                fap: f.first_arg_position as int,
                buf: 0,
                sym: f.fd.symbol@,
            },
            Codon::StateFunction(s) => CodonV {
                kind: CodonKind::SFun { sop: s.fd.op },
                fap: s.first_arg_position as int,
                buf: s.buf as int,
                sym: s.fd.symbol@,
            },
            Codon::Terminal(t) => CodonV {
                kind: CodonKind::Term { idx: t.i as int },
                fap: 0,
                buf: 0,
                sym: t.symbol@,
            },
            Codon::Feedback(f) => CodonV {
                kind: CodonKind::Fb { idx: f.i as int },
                fap: 0,
                buf: 0,
                sym: f.symbol@,
            },
        }
    }
}

/// The view of a codon after its mutable state is reset: same identity and
/// symbol, cached argument position and memory cell back to 0.
pub open spec fn reset_v(v: CodonV) -> CodonV {
    CodonV { kind: v.kind, fap: 0, buf: 0, sym: v.sym }
}

/// What a codon evaluates to, given the values `x` and `y` of its already
/// evaluated children (ignored by leaves), the feature row and a delay line.
pub open spec fn codon_eval_spec(v: CodonV, x: int, y: int, args: Seq<i64>, dl: DelayLine) -> int {
    match v.kind {
        CodonKind::Term { idx } => clamp_unit_spec(args[idx] as int),
        CodonKind::Fun { op } => op_spec(op, x, y),
        CodonKind::SFun { sop } => sop_spec(sop, x, v.buf),
        CodonKind::Fb { idx } => clamp_unit_spec(dl.buff@[dl.back_index(idx)] as int),
    }
}

/// The view of a codon after one evaluation with child value `x`: a
/// stateful codon remembers `x`, every other codon is unchanged.
pub open spec fn after_eval_v(v: CodonV, x: int) -> CodonV {
    match v.kind {
        CodonKind::SFun { .. } => CodonV { kind: v.kind, fap: v.fap, buf: x, sym: v.sym },
        _ => v,
    }
}

impl Codon {
    /// The codon's printable symbol.
    pub fn get_symbol(&self) -> (r: &str)
        ensures
            r@ == self@.sym,
    {
        match self {
            Codon::Function(f) => f.fd.symbol,
            Codon::StateFunction(s) => s.fd.symbol,
            Codon::Terminal(t) => t.symbol.as_str(),
            Codon::Feedback(f) => f.symbol.as_str(),
        }
    }

    /// Whether this codon consumes no argument slots.
    pub fn is_terminal(&self) -> (r: bool)
        ensures
            r == kind_is_terminal(self@.kind),
    {
        match self {
            Codon::Terminal(_) => true,
            Codon::Feedback(_) => true,
            _ => false,
        }
    }

    /// How many argument slots this codon consumes.
    pub fn get_arity(&self) -> (r: u8)
        ensures
            r as int == kind_arity(self@.kind),
    {
        match self {
            Codon::Function(f) => match f.fd.op {
                Op::Neg => 1,
                _ => 2,
            },
            Codon::Terminal(_) => 0,
            Codon::Feedback(_) => 0,
            _ => 1,
        }
    }

    /// Cache the position of this codon's first argument; a leaf ignores it.
    pub fn set_first_arg_position(&mut self, pos: usize)
        ensures
            final(self)@.kind == old(self)@.kind,
            final(self)@.buf == old(self)@.buf,
            final(self)@.sym == old(self)@.sym,
            final(self)@.fap == if kind_arity(old(self)@.kind) == 0 {
                old(self)@.fap
            } else {
                pos as int
            },
    {
        match self {
            Codon::Function(f) => {
                f.first_arg_position = pos;
            },
            Codon::StateFunction(s) => {
                s.first_arg_position = pos;
            },
            _ => {},
        }
    }

    /// Read the cached position of this codon's first argument.
    pub fn get_first_arg_position(&self) -> (r: usize)
        ensures
            r as int == self@.fap,
    {
        match self {
            Codon::Function(f) => f.first_arg_position,
            Codon::StateFunction(s) => s.first_arg_position,
            _ => 0,
        }
    }

    /// Evaluate this codon given its children's values `x` and `y`, the
    /// feature row and a delay line; a stateful codon updates its memory.
    pub fn evaluate(&mut self, x: i64, y: i64, args: &Vec<i64>, delay_line: &DelayLine) -> (r: i64)
        requires
            old(self)@.kind matches CodonKind::Term { idx } ==> idx < args@.len(),
            old(self)@.kind matches CodonKind::Fun { .. } ==> {
                &&& -(FX_SCALE as int) <= x <= FX_SCALE as int
                &&& -(FX_SCALE as int) <= y <= FX_SCALE as int
            },
            old(self)@.kind matches CodonKind::SFun { .. } ==> {
                &&& -(FX_SCALE as int) <= x <= FX_SCALE as int
                &&& -(FX_SCALE as int) <= old(self)@.buf <= FX_SCALE as int
            },
            old(self)@.kind matches CodonKind::Fb { idx } ==> delay_line.wf() && idx
                < usize::MAX,
        ensures
            r == codon_eval_spec(old(self)@, x as int, y as int, args@, *delay_line),
            final(self)@ == after_eval_v(old(self)@, x as int),
            -(FX_SCALE as int) <= r <= FX_SCALE as int,
    {
        match self {
            Codon::Function(f) => crate::functions::apply_op(f.fd.op, x, y),
            Codon::StateFunction(s) => s.eval(x),
            Codon::Terminal(t) => t.eval(args),
            Codon::Feedback(f) => f.eval(delay_line),
        }
    }

    /// A copy of this codon with its mutable state reset: the cached
    /// argument position and the memory cell go back to 0.
    pub fn fresh_copy(&self) -> (r: Codon)
        ensures
            r@ == reset_v(self@),
    {
        match self {
            Codon::Function(f) => Codon::Function(Function::new(f.fd)),
            Codon::StateFunction(s) => Codon::StateFunction(StateFunction::new(s.fd)),
            Codon::Terminal(t) => Codon::Terminal(
                Terminal { i: t.i, symbol: t.symbol.clone() },
            ),
            Codon::Feedback(f) => Codon::Feedback(
                Feedback { i: f.i, symbol: f.symbol.clone() },
            ),
        }
    }
}

} // verus!
