//! How tightly each operator binds.

use crate::parser::operator::Op;
use vstd::prelude::*;

verus! {

/// The least binding powers that the parser asks for.
#[derive(Debug, Clone, Copy, PartialEq, Eq, Structural)]
pub enum BindingPower {
    /// Anything binds: the power that a whole citation is parsed at.
    Minimum,
    /// The power that what follows a book's name is parsed at.
    Book,
    /// The power of `;`.
    And,
    /// The power of `ff`.
    Following,
}

impl BindingPower {
    /// The binding power as a number.
    pub open spec fn spec_value(self) -> u8 {
        match self {
            BindingPower::Minimum => 0,
            BindingPower::Book => 1,
            BindingPower::And => 2,
            BindingPower::Following => 3,
        }
    }

    /// The binding power as a number.
    pub fn value(self) -> (r: u8)
        ensures
            r == self.spec_value(),
    {
        match self {
            BindingPower::Minimum => 0,
            BindingPower::Book => 1,
            BindingPower::And => 2,
            BindingPower::Following => 3,
        }
    }
}

/// Whether `op` is written behind its operand.
pub open spec fn is_postfix(op: Op) -> bool {
    op is Following
}

/// Whether `op` is written before its operand. No operator is.
pub open spec fn is_prefix(op: Op) -> bool {
    false
}

/// The binding powers of `op` to its left and to its right, where it
/// stands between two operands. An operator that never stands between
/// two operands has none, and gets zero for both.
pub open spec fn infix_power(op: Op) -> (u8, u8) {
    match op {
        Op::BookOf => (9, 10),
        Op::And => (11, 12),
        Op::ChapterOf => (13, 14),
        Op::Select => (15, 16),
        Op::Through => (17, 18),
        Op::Following => (0, 0),
    }
}

/// The binding power of an operator that is written behind its operand.
pub fn postfix_binding_power(op: Op) -> (r: u8)
    requires
        is_postfix(op),
    ensures
        r == 20,
{
    20
}

/// The binding power of an operator that is written before its operand.
/// There is no such operator yet.
pub fn prefix_binding_power(op: Op) -> (r: u8)
    requires
        is_prefix(op),
    ensures
        r == 0,
{
    0
}

/// The binding powers of `op` to its left and to its right.
pub fn infix_binding_power(op: Op) -> (r: (u8, u8))
    ensures
        r == infix_power(op),
{
    match op {
        Op::BookOf => (9, 10),
        Op::And => (11, 12),
        Op::ChapterOf => (13, 14),
        Op::Select => (15, 16),
        Op::Through => (17, 18),
        _ => (0, 0),
    }
}

/// Between two operands, the operators bind more tightly in this order:
/// book, `;`, `:`, `,`, `-`. Each binds more tightly to its right than to
/// its left, and `ff` binds more tightly than all of them.
pub proof fn lemma_binding_order()
    ensures
        infix_power(Op::BookOf).0 < infix_power(Op::And).0 < infix_power(Op::ChapterOf).0
            < infix_power(Op::Select).0 < infix_power(Op::Through).0 < 20,
        forall|op: Op| !(op is Following) ==> (#[trigger] infix_power(op)).0 < infix_power(op).1,
        forall|op: Op| !(op is Following) ==> (#[trigger] infix_power(op)).1 < 20,
{
}

} // verus!
