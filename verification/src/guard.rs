//! Lowering of clause guards, and the rule that decides where an operand of
//! a binary operator needs braces.

use vstd::prelude::*;
use vstd::string::*;
use crate::ast::{BinOp, ClauseGuard};
use crate::constant::{const_expr, constant_doc};
use crate::literal::{decimal, number};
use crate::pretty::{text, Doc, Document};
use crate::trivia::Formatter;
use crate::wrap::{wrap_block, wrap_block_doc};

verus! {

/// An operand with precedence `side` under an operator with precedence `op`:
/// in braces if the operator binds tighter than the operand, as it is
/// otherwise.
pub open spec fn operator_side_doc(doc: Doc, op: u8, side: u8) -> Doc {
    if op > side {
        wrap_block_doc(doc).group()
    } else {
        doc
    }
}

/// The two operands of a binary operator around its name. The left operand
/// may bind as loosely as the operator; the right one must bind tighter, so
/// that a chain of one operator is read from the left.
pub open spec fn binary_doc(
    name: Seq<char>,
    precedence: u8,
    left: Doc,
    left_precedence: u8,
    right: Doc,
    right_precedence: u8,
) -> Doc {
    operator_side_doc(left, precedence, left_precedence).append(Doc::text(name)).append(
        operator_side_doc(right, precedence, (right_precedence - 1) as u8),
    )
}

impl ClauseGuard {
    /// The binary operator of the guard, if it is one.
    pub open spec fn spec_bin_op_name(&self) -> Option<BinOp> {
        match self {
            ClauseGuard::And { .. } => Some(BinOp::And),
            ClauseGuard::Or { .. } => Some(BinOp::Or),
            ClauseGuard::Equals { .. } => Some(BinOp::Eq),
            ClauseGuard::NotEquals { .. } => Some(BinOp::NotEq),
            ClauseGuard::GtInt { .. } => Some(BinOp::GtInt),
            ClauseGuard::GtEqInt { .. } => Some(BinOp::GtEqInt),
            ClauseGuard::LtInt { .. } => Some(BinOp::LtInt),
            ClauseGuard::LtEqInt { .. } => Some(BinOp::LtEqInt),
            ClauseGuard::GtFloat { .. } => Some(BinOp::GtFloat),
            ClauseGuard::GtEqFloat { .. } => Some(BinOp::GtEqFloat),
            ClauseGuard::LtFloat { .. } => Some(BinOp::LtFloat),
            ClauseGuard::LtEqFloat { .. } => Some(BinOp::LtEqFloat),
            ClauseGuard::Not { .. }
            | ClauseGuard::Var { .. }
            | ClauseGuard::TupleIndex { .. }
            | ClauseGuard::FieldAccess { .. }
            | ClauseGuard::ModuleSelect { .. }
            | ClauseGuard::Constant(_) => None,
        }
    }

    /// The binary operator at the head of the guard, if it has one.
    #[verifier::when_used_as_spec(spec_bin_op_name)]
    pub fn bin_op_name(&self) -> (r: Option<BinOp>)
        ensures
            r == self.spec_bin_op_name(),
    {
        match self {
            ClauseGuard::And { .. } => Some(BinOp::And),
            ClauseGuard::Or { .. } => Some(BinOp::Or),
            ClauseGuard::Equals { .. } => Some(BinOp::Eq),
            ClauseGuard::NotEquals { .. } => Some(BinOp::NotEq),
            ClauseGuard::GtInt { .. } => Some(BinOp::GtInt),
            ClauseGuard::GtEqInt { .. } => Some(BinOp::GtEqInt),
            ClauseGuard::LtInt { .. } => Some(BinOp::LtInt),
            ClauseGuard::LtEqInt { .. } => Some(BinOp::LtEqInt),
            ClauseGuard::GtFloat { .. } => Some(BinOp::GtFloat),
            ClauseGuard::GtEqFloat { .. } => Some(BinOp::GtEqFloat),
            ClauseGuard::LtFloat { .. } => Some(BinOp::LtFloat),
            ClauseGuard::LtEqFloat { .. } => Some(BinOp::LtEqFloat),
            ClauseGuard::Not { .. }
            | ClauseGuard::Var { .. }
            | ClauseGuard::TupleIndex { .. }
            | ClauseGuard::FieldAccess { .. }
            | ClauseGuard::ModuleSelect { .. }
            | ClauseGuard::Constant(_) => None,
        }
    }

    /// How tightly the guard binds: as its operator does, and tighter than
    /// any operator if it has none.
    pub open spec fn spec_precedence(&self) -> u8 {
        match self.spec_bin_op_name() {
            Some(op) => op.spec_precedence(),
            None => u8::MAX,
        }
    }

    /// How tightly the guard binds.
    #[verifier::when_used_as_spec(spec_precedence)]
    pub fn precedence(&self) -> (r: u8)
        ensures
            r == self.spec_precedence(),
            r >= 1,
    {
        match self.bin_op_name() {
            Some(op) => op.precedence(),
            None => u8::MAX,
        }
    }
}

/// The document of a clause guard.
pub open spec fn guard_doc(guard: &ClauseGuard) -> Doc
    decreases guard,
{
    match guard {
        ClauseGuard::And { left, right }
        | ClauseGuard::Or { left, right }
        | ClauseGuard::Equals { left, right }
        | ClauseGuard::NotEquals { left, right }
        | ClauseGuard::GtInt { left, right }
        | ClauseGuard::GtEqInt { left, right }
        | ClauseGuard::LtInt { left, right }
        | ClauseGuard::LtEqInt { left, right }
        | ClauseGuard::GtFloat { left, right }
        | ClauseGuard::GtEqFloat { left, right }
        | ClauseGuard::LtFloat { left, right }
        | ClauseGuard::LtEqFloat { left, right } => binary_doc(
            guard.spec_bin_op_name()->0.spec_name()@,
            guard.spec_precedence(),
            guard_doc(left),
            left.spec_precedence(),
            guard_doc(right),
            right.spec_precedence(),
        ),
        ClauseGuard::Var { name } => Doc::text(name@),
        ClauseGuard::TupleIndex { tuple, index } => guard_doc(tuple).append(Doc::text("."@)).append(
            Doc::text(decimal(*index as nat)),
        ),
        ClauseGuard::FieldAccess { container, label } => guard_doc(container).append(
            Doc::text("."@),
        ).append(Doc::text(label@)),
        ClauseGuard::ModuleSelect { module_name, label } => Doc::text(module_name@).append(
            Doc::text("."@),
        ).append(Doc::text(label@)),
        ClauseGuard::Constant(constant) => constant_doc(constant),
        ClauseGuard::Not { expression } => Doc::text("!"@).append(guard_doc(expression)),
    }
}

/// The document of a binary guard with the given operator text.
pub open spec fn guard_bin_op_doc(
    name: Seq<char>,
    precedence: u8,
    left: &ClauseGuard,
    right: &ClauseGuard,
) -> Doc {
    binary_doc(
        name,
        precedence,
        guard_doc(left),
        left.spec_precedence(),
        guard_doc(right),
        right.spec_precedence(),
    )
}

/// Puts an operand in braces where the operator binds tighter than it.
pub fn operand<'a>(doc: Document<'a>, op: u8, precedence: u8) -> (r: Document<'a>)
    ensures
        r@ == operator_side_doc(doc@, op, precedence),
{
    if op > precedence {
        wrap_block(doc).group()
    } else {
        doc
    }
}

/// The two operands of a binary operator around its name, each in braces
/// where its side asks for it.
pub fn binary<'a>(
    name: &'a str,
    precedence: u8,
    left: Document<'a>,
    left_precedence: u8,
    right: Document<'a>,
    right_precedence: u8,
) -> (r: Document<'a>)
    requires
        right_precedence >= 1,
    ensures
        r@ == binary_doc(name@, precedence, left@, left_precedence, right@, right_precedence),
{
    operand(left, precedence, left_precedence).append(text(name)).append(
        operand(right, precedence, right_precedence - 1),
    )
}

/// Lowers a clause guard.
pub fn clause_guard<'a>(guard: &'a ClauseGuard) -> (r: Document<'a>)
    ensures
        r@ == guard_doc(guard),
    decreases guard,
{
    match guard {
        ClauseGuard::And { left, right }
        | ClauseGuard::Or { left, right }
        | ClauseGuard::Equals { left, right }
        | ClauseGuard::NotEquals { left, right }
        | ClauseGuard::GtInt { left, right }
        | ClauseGuard::GtEqInt { left, right }
        | ClauseGuard::LtInt { left, right }
        | ClauseGuard::LtEqInt { left, right }
        | ClauseGuard::GtFloat { left, right }
        | ClauseGuard::GtEqFloat { left, right }
        | ClauseGuard::LtFloat { left, right }
        | ClauseGuard::LtEqFloat { left, right } => {
            let op = guard.bin_op_name().unwrap();
            binary(
                op.name(),
                op.precedence(),
                clause_guard(left),
                left.precedence(),
                clause_guard(right),
                right.precedence(),
            )
        },
        ClauseGuard::Var { name } => text(name.as_str()),
        ClauseGuard::TupleIndex { tuple, index } => clause_guard(tuple).append(text(".")).append(
            number(*index),
        ),
        ClauseGuard::FieldAccess { container, label } => clause_guard(container).append(
            text("."),
        ).append(text(label.as_str())),
        ClauseGuard::ModuleSelect { module_name, label } => text(module_name.as_str()).append(
            text("."),
        ).append(text(label.as_str())),
        ClauseGuard::Constant(constant) => const_expr(constant),
        ClauseGuard::Not { expression } => text("!").append(clause_guard(expression)),
    }
}

impl<'c> Formatter<'c> {
    /// Puts an operand in braces where the operator binds tighter than it.
    /// The cursor stays where it is.
    pub fn operator_side<'a>(&mut self, doc: Document<'a>, op: u8, side: u8) -> (r: Document<'a>)
        ensures
            r@ == operator_side_doc(doc@, op, side),
            final(self)@ == old(self)@,
    {
        operand(doc, op, side)
    }

    /// Lowers a binary guard with the given operator text and precedence. The
    /// cursor stays where it is.
    pub fn clause_guard_bin_op<'a>(
        &mut self,
        name: &'a str,
        name_precedence: u8,
        left: &'a ClauseGuard,
        right: &'a ClauseGuard,
    ) -> (r: Document<'a>)
        ensures
            r@ == guard_bin_op_doc(name@, name_precedence, left, right),
            final(self)@ == old(self)@,
    {
        binary(
            name,
            name_precedence,
            clause_guard(left),
            left.precedence(),
            clause_guard(right),
            right.precedence(),
        )
    }
}

} // verus!
