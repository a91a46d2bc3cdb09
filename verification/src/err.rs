//! Error conditions.
//!
//! Two kinds of failure exist: type errors, raised while an application
//! node is checked at construction, and value errors, raised when a
//! constant is projected to a shape it does not have during evaluation.
//! Every failure is a returned condition carrying the operator and the
//! offending types or constants; nothing panics.

use vstd::prelude::*;

use crate::op::Op;
use crate::typ::Typ;

verus! {

/// Spec-level image of an [`Error`], with mathematical text.
#[allow(inconsistent_fields)]
pub ghost enum ErrV {
    /// Fewer arguments than the operator's minimal arity.
    TooFewArgs { op: Op, found: nat },
    /// More arguments than the operator's maximal arity.
    TooManyArgs { op: Op, found: nat },
    /// An if-then-else whose condition is not boolean.
    IteCondNotBool { found: Typ },
    /// An if-then-else whose branches disagree on their type.
    IteBranchMismatch { thn: Typ, els: Typ },
    /// A logical operator applied to a non-boolean argument.
    ExpectedBool { op: Op },
    /// An arithmetic operator applied to a non-arithmetic argument.
    ExpectedArith { op: Op, found: Typ },
    /// Arguments that must share one type but do not.
    TypMismatch { op: Op, expected: Typ, found: Typ },
    /// An integer-only operator applied to another arithmetic type.
    ExpectedInt { op: Op, found: Typ },
    /// A constant projected to a shape it does not have.
    CstMismatch { expected: Typ, found: Typ, text: Seq<char> },
    /// A binary evaluation step over operands of the wrong shapes.
    BinMismatch { op: Op, lft_text: Seq<char>, lft_typ: Typ, rgt_text: Seq<char>, rgt_typ: Typ },
    /// A unary evaluation step over an operand of the wrong shape.
    UnMismatch { op: Op, text: Seq<char>, found: Typ },
}

/// A failed type check or constant projection.
#[allow(inconsistent_fields)]
#[derive(Debug, Clone)]
pub enum Error {
    /// Fewer arguments than the operator's minimal arity.
    TooFewArgs { op: Op, found: usize },
    /// More arguments than the operator's maximal arity.
    TooManyArgs { op: Op, found: usize },
    /// An if-then-else whose condition is not boolean.
    IteCondNotBool { found: Typ },
    /// An if-then-else whose branches disagree on their type.
    IteBranchMismatch { thn: Typ, els: Typ },
    /// A logical operator applied to a non-boolean argument.
    ExpectedBool { op: Op },
    /// An arithmetic operator applied to a non-arithmetic argument.
    ExpectedArith { op: Op, found: Typ },
    /// Arguments that must share one type but do not.
    TypMismatch { op: Op, expected: Typ, found: Typ },
    /// An integer-only operator applied to another arithmetic type.
    ExpectedInt { op: Op, found: Typ },
    /// A constant projected to a shape it does not have; carries the
    /// constant's display text.
    CstMismatch { expected: Typ, found: Typ, text: String },
    /// A binary evaluation step over operands of the wrong shapes;
    /// carries both operands' display texts.
    BinMismatch { op: Op, lft_text: String, lft_typ: Typ, rgt_text: String, rgt_typ: Typ },
    /// A unary evaluation step over an operand of the wrong shape.
    UnMismatch { op: Op, text: String, found: Typ },
}

impl View for Error {
    type V = ErrV;

    open spec fn view(&self) -> ErrV {
        match self {
            Error::TooFewArgs { op, found } => ErrV::TooFewArgs {
                op: *op,
                found: *found as nat,
            },
            Error::TooManyArgs { op, found } => ErrV::TooManyArgs {
                op: *op,
                found: *found as nat,
            },
            Error::IteCondNotBool { found } => ErrV::IteCondNotBool { found: *found },
            Error::IteBranchMismatch { thn, els } => ErrV::IteBranchMismatch {
                thn: *thn,
                els: *els,
            },
            Error::ExpectedBool { op } => ErrV::ExpectedBool { op: *op },
            Error::ExpectedArith { op, found } => ErrV::ExpectedArith {
                op: *op,
                found: *found,
            },
            Error::TypMismatch { op, expected, found } => ErrV::TypMismatch {
                op: *op,
                expected: *expected,
                found: *found,
            },
            Error::ExpectedInt { op, found } => ErrV::ExpectedInt { op: *op, found: *found },
            Error::CstMismatch { expected, found, text } => ErrV::CstMismatch {
                expected: *expected,
                found: *found,
                text: text@,
            },
            Error::BinMismatch { op, lft_text, lft_typ, rgt_text, rgt_typ } => ErrV::BinMismatch {
                op: *op,
                lft_text: lft_text@,
                lft_typ: *lft_typ,
                rgt_text: rgt_text@,
                rgt_typ: *rgt_typ,
            },
            Error::UnMismatch { op, text, found } => ErrV::UnMismatch {
                op: *op,
                text: text@,
                found: *found,
            },
        }
    }
}

} // verus!
