//! The closed type lattice and operator precedence levels.

use vstd::prelude::*;

use core::cmp::Ordering;
use vstd::std_specs::cmp::PartialOrdSpec;

verus! {

/// A type: one of the three sorts expressions can have.
#[derive(Debug, Clone, Copy, PartialEq, Eq, Structural)]
pub enum Typ {
    /// Bool type.
    Bool,
    /// Integer type.
    Int,
    /// Rational type.
    Rat,
}

impl Typ {
    /// Creates a bool type.
    pub fn bool() -> (r: Self)
        ensures
            r == Typ::Bool,
    {
        Typ::Bool
    }

    /// Creates an integer type.
    pub fn int_typ() -> (r: Self)
        ensures
            r == Typ::Int,
    {
        Typ::Int
    }

    /// Creates a rational type.
    pub fn rat() -> (r: Self)
        ensures
            r == Typ::Rat,
    {
        Typ::Rat
    }

    /// True if the type is an arithmetic one.
    pub fn is_arith(self) -> (r: bool)
        ensures
            r == self.spec_is_arith(),
    {
        match self {
            Typ::Bool => false,
            Typ::Int | Typ::Rat => true,
        }
    }

    /// Both `Int` and `Rat` are arithmetic; `Bool` is not.
    pub open spec fn spec_is_arith(self) -> bool {
        self != Typ::Bool
    }

    /// Human-facing name of the type.
    pub open spec fn spec_display_str(self) -> Seq<char> {
        match self {
            Typ::Bool => "bool"@,
            Typ::Int => "int"@,
            Typ::Rat => "rat"@,
        }
    }

    /// Human-facing name of the type.
    pub fn display_str(self) -> (r: &'static str)
        ensures
            r@ == self.spec_display_str(),
    {
        match self {
            Typ::Bool => "bool",
            Typ::Int => "int",
            Typ::Rat => "rat",
        }
    }

    /// The SMT-LIB2 sort this type maps to.
    pub open spec fn spec_smt2_str(self) -> Seq<char> {
        match self {
            Typ::Bool => "Bool"@,
            Typ::Int => "Int"@,
            Typ::Rat => "Real"@,
        }
    }

    /// The SMT-LIB2 sort this type maps to.
    pub fn smt2_str(self) -> (r: &'static str)
        ensures
            r@ == self.spec_smt2_str(),
    {
        match self {
            Typ::Bool => "Bool",
            Typ::Int => "Int",
            Typ::Rat => "Real",
        }
    }
}

/// Trait implemented by everything that carries a type: constants,
/// variables, and whole expressions.
pub trait HasTyp {
    /// The type, at the spec level.
    spec fn spec_typ(&self) -> Typ;

    /// Type accessor.
    fn typ(&self) -> (t: Typ)
        ensures
            t == self.spec_typ(),
    ;
}

/// Operator precedence.
#[derive(Debug, Clone, Copy, PartialEq, Eq, Structural)]
pub enum Precedence {
    /// Maximal precedence.
    Max,
    /// Numeric precedence.
    Level(usize),
}

impl Precedence {
    /// Constructor.
    pub fn new(precedence: usize) -> (r: Self)
        ensures
            r == Precedence::Level(precedence),
    {
        Precedence::Level(precedence)
    }

    /// Maximal precedence.
    pub fn max() -> (r: Self)
        ensures
            r == Precedence::Max,
    {
        Precedence::Max
    }
}

impl PartialOrd for Precedence {
    /// `Max` is above every numeric level; numeric levels order as their
    /// numbers do.
    fn partial_cmp(&self, other: &Self) -> Option<Ordering> {
        match (self, other) {
            (Precedence::Max, Precedence::Max) => Some(Ordering::Equal),
            (Precedence::Max, Precedence::Level(_)) => Some(Ordering::Greater),
            (Precedence::Level(_), Precedence::Max) => Some(Ordering::Less),
            (Precedence::Level(a), Precedence::Level(b)) => {
                if *a < *b {
                    Some(Ordering::Less)
                } else if *a == *b {
                    Some(Ordering::Equal)
                } else {
                    Some(Ordering::Greater)
                }
            },
        }
    }
}

impl vstd::std_specs::cmp::PartialOrdSpecImpl for Precedence {
    open spec fn obeys_partial_cmp_spec() -> bool {
        true
    }

    open spec fn partial_cmp_spec(&self, other: &Self) -> Option<Ordering> {
        match (self, other) {
            (Precedence::Max, Precedence::Max) => Some(Ordering::Equal),
            (Precedence::Max, Precedence::Level(_)) => Some(Ordering::Greater),
            (Precedence::Level(_), Precedence::Max) => Some(Ordering::Less),
            (Precedence::Level(a), Precedence::Level(b)) => {
                if *a < *b {
                    Some(Ordering::Less)
                } else if *a == *b {
                    Some(Ordering::Equal)
                } else {
                    Some(Ordering::Greater)
                }
            },
        }
    }
}

} // verus!
