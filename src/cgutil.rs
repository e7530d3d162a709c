//! Helpers shared by the code generators.

use crate::x64::Cond;
use vstd::prelude::*;

verus! {

/// Binary primitive operations on fixnums.
#[derive(Debug, Clone, Copy, PartialEq, Eq, Structural)]
pub enum PrimOpFF {
    Add,
    Sub,
    Lt,
    Eq,
}

/// Whether `op` is a comparison, which has a branch condition.
pub open spec fn is_conditional(op: PrimOpFF) -> bool {
    op == PrimOpFF::Lt || op == PrimOpFF::Eq
}

/// The branch condition under which the comparison `op` holds.
pub fn op_to_cond(op: PrimOpFF) -> (r: Cond)
    requires
        is_conditional(op),
    ensures
        op == PrimOpFF::Lt ==> r == Cond::L,
        op == PrimOpFF::Eq ==> r == Cond::E,
{
    match op {
        PrimOpFF::Lt => Cond::L,
        _ => Cond::E,
    }
}

} // verus!
