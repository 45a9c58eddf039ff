//! Values that a box emits.
use vstd::prelude::*;
use crate::num::{same_value, same_value_bits};

verus! {

/// One observable output of a box.
#[derive(Clone, Debug)]
pub enum BoxOut {
    Int(i32),
    /// A single-precision value, held as its bit pattern.
    Flt(u32),
    Str(String),
}

/// Equality of outputs: the same variant with equal contents, where floats
/// compare as IEEE values (NaN equals nothing, `-0.0` equals `0.0`).
pub open spec fn out_eq(a: BoxOut, b: BoxOut) -> bool {
    match (a, b) {
        (BoxOut::Int(x), BoxOut::Int(y)) => x == y,
        (BoxOut::Flt(x), BoxOut::Flt(y)) => same_value(x, y),
        (BoxOut::Str(x), BoxOut::Str(y)) => x@ == y@,
        _ => false,
    }
}

impl BoxOut {
    /// A copy of this output.
    pub fn duplicate(&self) -> (r: BoxOut)
        ensures
            r == *self,
    {
        match self {
            BoxOut::Int(n) => BoxOut::Int(*n),
            BoxOut::Flt(b) => BoxOut::Flt(*b),
            BoxOut::Str(s) => BoxOut::Str(s.clone()),
        }
    }
}

impl Default for BoxOut {
    fn default() -> (r: BoxOut)
        ensures
            r == BoxOut::Int(0),
    {
        BoxOut::Int(0)
    }
}

impl PartialEq for BoxOut {
    fn eq(&self, other: &BoxOut) -> (r: bool) {
        match (self, other) {
            (BoxOut::Int(x), BoxOut::Int(y)) => *x == *y,
            (BoxOut::Flt(x), BoxOut::Flt(y)) => same_value_bits(*x, *y),
            (BoxOut::Str(x), BoxOut::Str(y)) => x.eq(y),
            _ => false,
        }
    }
}

impl vstd::std_specs::cmp::PartialEqSpecImpl for BoxOut {
    open spec fn obeys_eq_spec() -> bool {
        true
    }

    open spec fn eq_spec(&self, other: &BoxOut) -> bool {
        out_eq(*self, *other)
    }
}

} // verus!
