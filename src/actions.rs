//! The script language of a box's buttons and its interpreter.
//!
//! A script is a list of [`Action`]s run against the box's register file.
//! Registers and constants are single-precision values held as bit patterns
//! (see [`crate::num`]). The rounding arithmetic of those values (sum,
//! product, remainder, difference) is handed to the interpreter by its caller
//! as a function of an operation and two operands; everything else, which
//! operands are read, in what order, where results go, which branch runs and
//! what is emitted, is decided and proved here.
use vstd::prelude::*;
use crate::num::{
    is_nan, is_zero, truncated, within_epsilon, ONE_BITS, ZERO_BITS, is_nan_bits, is_zero_bits,
    truncate_bits, within_epsilon_bits,
};
use crate::output::BoxOut;

verus! {

/// Number of registers in a box.
pub const REGISTER_COUNT: usize = 8;

/// The register file of one box.
pub type BoxState = [u32; 8];

/// The bit pattern that stands for every NaN result of the arithmetic.
pub const CANONICAL_NAN_BITS: u32 = 0x7fc0_0000;

/// An operand: a constant, or the current contents of a register.
#[derive(Copy, Clone, Debug)]
pub enum Val {
    /// A constant, as its bit pattern.
    C(u32),
    /// The register at this index.
    G(usize),
}

/// An arithmetic operation on two single-precision values.
#[derive(Copy, Clone, Debug, PartialEq, Eq, Structural)]
pub enum FloatOp {
    /// `a + b`
    Sum,
    /// `a * b`
    Product,
    /// `a % b`, the remainder with the sign of `a`
    Remainder,
    /// `a - b`
    Difference,
}

/// A statement of the script language.
#[derive(Debug)]
pub enum Action {
    /// `r[i] = v`
    Assign(Val, usize),
    /// `r[i] = a + b`
    Add(Val, Val, usize),
    /// `r[i] = a + r[i]`
    AddEq(Val, usize),
    /// `r[i] = a * b`
    Mult(Val, Val, usize),
    /// `r[i] = ((a % b) + b) % b`, a remainder that is never negative for `b > 0`
    Mod(Val, Val, usize),
    /// `r[i] = 1.0` if `|a - b| < 1e-5`, else `0.0`
    Equals(Val, Val, usize),
    /// `r[i] = if c != 0 { a } else { b }`
    IfElse(Val, Val, Val, usize),
    /// Runs each action in order and emits all of their outputs in order.
    Do(Vec<Action>),
    /// Runs the first list if the value is nonzero, else the second.
    IfElseDo(Val, Vec<Action>, Vec<Action>),
    /// Emits the value truncated toward zero as an `Int`.
    PrintInt(Val),
}

/// The arithmetic seen by the interpreter: a function of the operation and
/// the operands.
pub type Arith = spec_fn(FloatOp, u32, u32) -> u32;

pub open spec fn val_wf(v: Val) -> bool {
    match v {
        Val::C(_) => true,
        Val::G(i) => i < REGISTER_COUNT,
    }
}

/// Every register index in the action is in range.
pub open spec fn action_wf(a: Action) -> bool
    decreases a,
{
    match a {
        Action::Assign(v, i) => val_wf(v) && i < REGISTER_COUNT,
        Action::Add(x, y, i) => val_wf(x) && val_wf(y) && i < REGISTER_COUNT,
        Action::AddEq(x, i) => val_wf(x) && i < REGISTER_COUNT,
        Action::Mult(x, y, i) => val_wf(x) && val_wf(y) && i < REGISTER_COUNT,
        Action::Mod(x, y, i) => val_wf(x) && val_wf(y) && i < REGISTER_COUNT,
        Action::Equals(x, y, i) => val_wf(x) && val_wf(y) && i < REGISTER_COUNT,
        Action::IfElse(c, x, y, i) => val_wf(c) && val_wf(x) && val_wf(y) && i < REGISTER_COUNT,
        Action::Do(l) => script_wf(l@),
        Action::IfElseDo(c, t, e) => val_wf(c) && script_wf(t@) && script_wf(e@),
        Action::PrintInt(v) => val_wf(v),
    }
}

/// Every register index in the script is in range.
pub open spec fn script_wf(l: Seq<Action>) -> bool
    decreases l,
{
    if l.len() == 0 {
        true
    } else {
        script_wf(l.drop_last()) && action_wf(l.last())
    }
}

pub open spec fn val_of(v: Val, regs: Seq<u32>) -> u32 {
    match v {
        Val::C(b) => b,
        Val::G(i) => regs[i as int],
    }
}

/// What one action does: the registers after it and what it emits. Every
/// operand is read from the registers as they were before the action.
pub open spec fn run(a: Action, regs: Seq<u32>, f: Arith) -> (Seq<u32>, Seq<BoxOut>)
    decreases a,
{
    match a {
        Action::Assign(v, i) => (regs.update(i as int, val_of(v, regs)), seq![]),
        Action::Add(x, y, i) => (
            regs.update(i as int, f(FloatOp::Sum, val_of(x, regs), val_of(y, regs))),
            seq![],
        ),
        Action::AddEq(x, i) => (
            regs.update(i as int, f(FloatOp::Sum, val_of(x, regs), regs[i as int])),
            seq![],
        ),
        Action::Mult(x, y, i) => (
            regs.update(i as int, f(FloatOp::Product, val_of(x, regs), val_of(y, regs))),
            seq![],
        ),
        Action::Mod(x, y, i) => {
            let a = val_of(x, regs);
            let b = val_of(y, regs);
            let m = f(FloatOp::Remainder, f(FloatOp::Sum, f(FloatOp::Remainder, a, b), b), b);
            (regs.update(i as int, m), seq![])
        },
        Action::Equals(x, y, i) => {
            let d = f(FloatOp::Difference, val_of(x, regs), val_of(y, regs));
            (regs.update(i as int, if within_epsilon(d) { ONE_BITS } else { ZERO_BITS }), seq![])
        },
        Action::IfElse(c, x, y, i) => {
            let v = if !is_zero(val_of(c, regs)) { val_of(x, regs) } else { val_of(y, regs) };
            (regs.update(i as int, v), seq![])
        },
        Action::Do(l) => run_list(l@, regs, f),
        Action::IfElseDo(c, t, e) => if !is_zero(val_of(c, regs)) {
            run_list(t@, regs, f)
        } else {
            run_list(e@, regs, f)
        },
        Action::PrintInt(v) => (regs, seq![BoxOut::Int(truncated(val_of(v, regs)))]),
    }
}

/// What a list of actions does when run in order: each starts from the
/// registers the one before left, and the outputs are concatenated.
pub open spec fn run_list(l: Seq<Action>, regs: Seq<u32>, f: Arith) -> (Seq<u32>, Seq<BoxOut>)
    decreases l,
{
    if l.len() == 0 {
        (regs, seq![])
    } else {
        let before = run_list(l.drop_last(), regs, f);
        let last = run(l.last(), before.0, f);
        (last.0, before.1 + last.1)
    }
}

/// A NaN result is stored as the canonical NaN; its payload is never
/// observable by a script.
pub open spec fn canonical(b: u32) -> u32 {
    if is_nan(b) { CANONICAL_NAN_BITS } else { b }
}

/// A closure that can serve as the arithmetic: it accepts every operation
/// and operands, and its result depends on them alone, up to the payload of
/// a NaN.
pub open spec fn float_arithmetic<F: Fn(FloatOp, u32, u32) -> u32>(f: F) -> bool {
    &&& forall|op: FloatOp, a: u32, b: u32| #[trigger] f.requires((op, a, b))
    &&& forall|op: FloatOp, a: u32, b: u32, r1: u32, r2: u32|
        #![trigger f.ensures((op, a, b), r1), f.ensures((op, a, b), r2)]
        f.ensures((op, a, b), r1) && f.ensures((op, a, b), r2) ==> canonical(r1) == canonical(r2)
}

/// The arithmetic that a closure computes.
pub open spec fn arith_of<F: Fn(FloatOp, u32, u32) -> u32>(f: F) -> Arith {
    |op: FloatOp, a: u32, b: u32| canonical(choose|r: u32| f.ensures((op, a, b), r))
}

fn canonical_bits(b: u32) -> (r: u32)
    ensures
        r == canonical(b),
{
    if is_nan_bits(b) { CANONICAL_NAN_BITS } else { b }
}

fn apply<F: Fn(FloatOp, u32, u32) -> u32>(arith: &F, op: FloatOp, a: u32, b: u32) -> (r: u32)
    requires
        float_arithmetic(*arith),
    ensures
        r == arith_of(*arith)(op, a, b),
{
    let x = arith(op, a, b);
    proof {
        let c = choose|r: u32| arith.ensures((op, a, b), r);
        assert(arith.ensures((op, a, b), c));
        assert(canonical(x) == canonical(c));
    }
    canonical_bits(x)
}

impl Val {
    pub fn evaluate(&self, state: &BoxState) -> (r: u32)
        requires
            val_wf(*self),
        ensures
            r == val_of(*self, state@),
    {
        match self {
            Val::C(b) => *b,
            Val::G(i) => state[*i],
        }
    }
}

impl Action {
    /// Runs the action against `state` and returns what it emits, in order.
    pub fn evaluate<F: Fn(FloatOp, u32, u32) -> u32>(&self, state: &mut BoxState, arith: &F) -> (out: Vec<BoxOut>)
        requires
            action_wf(*self),
            float_arithmetic(*arith),
        ensures
            (final(state)@, out@) == run(*self, old(state)@, arith_of(*arith)),
        decreases self,
    {
        match self {
            Action::Assign(v, i) => {
                let x = v.evaluate(state);
                state[*i] = x;
                Vec::new()
            },
            Action::Add(a, b, i) => {
                let x = a.evaluate(state);
                let y = b.evaluate(state);
                state[*i] = apply(arith, FloatOp::Sum, x, y);
                Vec::new()
            },
            Action::AddEq(a, i) => {
                let x = a.evaluate(state);
                let y = state[*i];
                state[*i] = apply(arith, FloatOp::Sum, x, y);
                Vec::new()
            },
            Action::Mult(a, b, i) => {
                let x = a.evaluate(state);
                let y = b.evaluate(state);
                state[*i] = apply(arith, FloatOp::Product, x, y);
                Vec::new()
            },
            Action::Mod(a, b, i) => {
                let x = a.evaluate(state);
                let y = b.evaluate(state);
                let r = apply(arith, FloatOp::Remainder, x, y);
                let s = apply(arith, FloatOp::Sum, r, y);
                state[*i] = apply(arith, FloatOp::Remainder, s, y);
                Vec::new()
            },
            Action::Equals(a, b, i) => {
                let x = a.evaluate(state);
                let y = b.evaluate(state);
                let d = apply(arith, FloatOp::Difference, x, y);
                state[*i] = if within_epsilon_bits(d) { ONE_BITS } else { ZERO_BITS };
                Vec::new()
            },
            Action::IfElse(c, a, b, i) => {
                let x = if !is_zero_bits(c.evaluate(state)) {
                    a.evaluate(state)
                } else {
                    b.evaluate(state)
                };
                state[*i] = x;
                Vec::new()
            },
            Action::Do(l) => evaluate_list(l, state, arith),
            Action::IfElseDo(c, t, e) => {
                if !is_zero_bits(c.evaluate(state)) {
                    evaluate_list(t, state, arith)
                } else {
                    evaluate_list(e, state, arith)
                }
            },
            Action::PrintInt(v) => {
                let x = v.evaluate(state);
                let mut out = Vec::new();
                out.push(BoxOut::Int(truncate_bits(x)));
                out
            },
        }
    }
}

impl Val {
    pub fn is_wf(&self) -> (r: bool)
        ensures
            r == val_wf(*self),
    {
        match self {
            Val::C(_) => true,
            Val::G(i) => *i < REGISTER_COUNT,
        }
    }
}

impl Action {
    /// Whether every register index in the action is in range.
    pub fn is_wf(&self) -> (r: bool)
        ensures
            r == action_wf(*self),
        decreases self,
    {
        match self {
            Action::Assign(v, i) => v.is_wf() && *i < REGISTER_COUNT,
            Action::Add(x, y, i) => x.is_wf() && y.is_wf() && *i < REGISTER_COUNT,
            Action::AddEq(x, i) => x.is_wf() && *i < REGISTER_COUNT,
            Action::Mult(x, y, i) => x.is_wf() && y.is_wf() && *i < REGISTER_COUNT,
            Action::Mod(x, y, i) => x.is_wf() && y.is_wf() && *i < REGISTER_COUNT,
            Action::Equals(x, y, i) => x.is_wf() && y.is_wf() && *i < REGISTER_COUNT,
            Action::IfElse(c, x, y, i) => c.is_wf() && x.is_wf() && y.is_wf() && *i < REGISTER_COUNT,
            Action::Do(l) => script_is_wf(l),
            Action::IfElseDo(c, t, e) => c.is_wf() && script_is_wf(t) && script_is_wf(e),
            Action::PrintInt(v) => v.is_wf(),
        }
    }
}

/// Whether every register index in the script is in range.
pub fn script_is_wf(l: &Vec<Action>) -> (r: bool)
    ensures
        r == script_wf(l@),
    decreases l@,
{
    let mut k: usize = 0;
    while k < l.len()
        invariant
            k <= l.len(),
            script_wf(l@.take(k as int)),
        decreases l.len() - k,
    {
        proof {
            assert(l@.take(k + 1).drop_last() =~= l@.take(k as int));
        }
        if !l[k].is_wf() {
            proof {
                assert(l@.take(k + 1).last() == l@[k as int]);
                if script_wf(l@) {
                    lemma_script_wf_prefix(l@, k + 1);
                }
            }
            return false;
        }
        k += 1;
    }
    proof {
        assert(l@.take(k as int) =~= l@);
    }
    true
}

/// Every prefix of a well-formed script is well formed.
pub proof fn lemma_script_wf_prefix(l: Seq<Action>, n: int)
    requires
        script_wf(l),
        0 <= n <= l.len(),
    ensures
        script_wf(l.take(n)),
    decreases l.len(),
{
    if n < l.len() {
        assert(l.drop_last().take(n) =~= l.take(n));
        lemma_script_wf_prefix(l.drop_last(), n);
    } else {
        assert(l.take(n) =~= l);
    }
}

/// Runs the actions in order against `state` and returns everything they
/// emit, in order.
pub fn evaluate_list<F: Fn(FloatOp, u32, u32) -> u32>(l: &Vec<Action>, state: &mut BoxState, arith: &F) -> (out: Vec<BoxOut>)
    requires
        script_wf(l@),
        float_arithmetic(*arith),
    ensures
        (final(state)@, out@) == run_list(l@, old(state)@, arith_of(*arith)),
    decreases l@,
{
    let mut out: Vec<BoxOut> = Vec::new();
    let mut k: usize = 0;
    while k < l.len()
        invariant
            k <= l.len(),
            script_wf(l@),
            float_arithmetic(*arith),
            (state@, out@) == run_list(l@.take(k as int), old(state)@, arith_of(*arith)),
        decreases l.len() - k,
    {
        proof {
            lemma_script_wf_index(l@, k as int);
            assert(l@.take(k + 1).drop_last() =~= l@.take(k as int));
            assert(l@.take(k + 1).last() == l@[k as int]);
        }
        let mut o = l[k].evaluate(state, arith);
        out.append(&mut o);
        k += 1;
    }
    proof {
        assert(l@.take(k as int) =~= l@);
    }
    out
}

/// `AddEq(v, i)` is `Add(v, G(i), i)`: on every register file and under every
/// arithmetic they leave the same registers and emit the same outputs.
pub proof fn lemma_add_eq_is_add(v: Val, i: usize, regs: Seq<u32>, f: Arith)
    ensures
        run(Action::AddEq(v, i), regs, f) == run(Action::Add(v, Val::G(i), i), regs, f),
{
}

/// Running two lists one after the other is running their concatenation:
/// the second starts from the registers the first left, and the outputs of
/// the first come before those of the second.
pub proof fn lemma_run_list_concat(l1: Seq<Action>, l2: Seq<Action>, regs: Seq<u32>, f: Arith)
    ensures
        run_list(l1 + l2, regs, f) == ({
            let first = run_list(l1, regs, f);
            let second = run_list(l2, first.0, f);
            (second.0, first.1 + second.1)
        }),
    decreases l2.len(),
{
    if l2.len() == 0 {
        assert(l1 + l2 =~= l1);
        assert(run_list(l1, regs, f).1 + seq![] =~= run_list(l1, regs, f).1);
    } else {
        lemma_run_list_concat(l1, l2.drop_last(), regs, f);
        assert((l1 + l2).drop_last() =~= l1 + l2.drop_last());
        assert((l1 + l2).last() == l2.last());
        let first = run_list(l1, regs, f);
        let mid = run_list(l2.drop_last(), first.0, f);
        let last = run(l2.last(), mid.0, f);
        assert(first.1 + mid.1 + last.1 =~= first.1 + (mid.1 + last.1));
    }
}

/// Every action of a well-formed script is well formed.
pub proof fn lemma_script_wf_index(l: Seq<Action>, k: int)
    requires
        script_wf(l),
        0 <= k < l.len(),
    ensures
        action_wf(l[k]),
    decreases l.len(),
{
    if k < l.len() - 1 {
        lemma_script_wf_index(l.drop_last(), k);
    }
}

} // verus!
