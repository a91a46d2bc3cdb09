//! Symbolic-expression core for an SMT-backed verification tool.
//!
//! The crate models logical and arithmetic formulas over a closed type
//! lattice (booleans, unbounded integers, exact rationals), type-checks
//! and partially evaluates them, and renders them as SMT-LIB2 text.

pub mod arith;
pub mod big;
pub mod cst;
pub mod err;
pub mod eval;
pub mod op;
pub mod pexpr;
pub mod style;
pub mod text;
pub mod typ;
pub mod var;

pub use big::{Int, Rat};
pub use cst::Cst;
pub use err::Error;
pub use op::Op;
pub use pexpr::{Expr, MExpr, NotPExpr, PExpr, SExpr};
pub use style::{pretty_md, Mode, Style};
pub use typ::{HasTyp, Precedence, Typ};
pub use var::{MetaVar, StepSym, SVar, Unroll, Var};
