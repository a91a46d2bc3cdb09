//! The operator catalog: arities, symbol tables, type-checking and
//! constant-folding evaluation.

use vstd::prelude::*;

use crate::err::{ErrV, Error};
use crate::typ::{HasTyp, Typ};
use vstd::string::StringExecFns;

verus! {

/// The smallest index at or after `i` whose type differs from `expected`.
pub open spec fn first_diff(typs: Seq<Typ>, expected: Typ, i: nat) -> Option<nat>
    decreases typs.len() - i,
{
    if i >= typs.len() {
        None
    } else if typs[i as int] != expected {
        Some(i)
    } else {
        first_diff(typs, expected, (i + 1) as nat)
    }
}

/// When no type differs from `expected` at or after `i`, every type from
/// `i` on equals `expected`.
pub proof fn lemma_first_diff_none(typs: Seq<Typ>, expected: Typ, i: nat)
    requires
        first_diff(typs, expected, i) is None,
    ensures
        forall|k: int| i <= k < typs.len() ==> typs[k] == expected,
    decreases typs.len() - i,
{
    if i < typs.len() {
        lemma_first_diff_none(typs, expected, (i + 1) as nat);
    }
}

/// The types of a sequence of typed values.
pub open spec fn typs_of<T: HasTyp>(args: Seq<T>) -> Seq<Typ> {
    args.map_values(|a: T| a.spec_typ())
}

/// Character-wise equality of two text slices.
fn str_eq(a: &str, b: &str) -> (r: bool)
    ensures
        r == (a@ == b@),
{
    let x = a.to_owned();
    let y = b.to_owned();
    x == y
}

/// An executable check result agrees with its spec-level counterpart.
pub open spec fn typ_res_matches(r: Result<Typ, Error>, s: Result<Typ, ErrV>) -> bool {
    match s {
        Ok(t) => r == Result::<Typ, Error>::Ok(t),
        Err(e) => r matches Err(err) && err@ == e,
    }
}

/// Operators.
#[derive(Debug, Clone, Copy, PartialEq, Eq, Structural)]
pub enum Op {
    /// If-then-else.
    Ite,
    /// Logical implication.
    Implies,
    /// Addition.
    Add,
    /// Subtraction.
    Sub,
    /// Multiplication.
    Mul,
    /// Division.
    Div,
    /// Integer division.
    IDiv,
    /// Modulo.
    Mod,
    /// Greater than or equal to.
    Ge,
    /// Less than or equal to.
    Le,
    /// Greater than.
    Gt,
    /// Less than.
    Lt,
    /// Equal to.
    Eq,
    /// Logical negation.
    Not,
    /// Logical conjunction.
    And,
    /// Logical disjunction.
    Or,
}

impl Op {
    /// Which operator a token names: each operator answers to its ASCII
    /// spellings and, for the logical and relational ones, to a unicode
    /// glyph as well.
    pub open spec fn spec_of_str(s: Seq<char>) -> Option<Op> {
        if s == "ite"@ {
            Some(Op::Ite)
        } else if s == "=>"@ || s == "implies"@ || s == "\u{21d2}"@ {
            Some(Op::Implies)
        } else if s == "+"@ {
            Some(Op::Add)
        } else if s == "-"@ {
            Some(Op::Sub)
        } else if s == "*"@ {
            Some(Op::Mul)
        } else if s == "/"@ {
            Some(Op::Div)
        } else if s == "div"@ {
            Some(Op::IDiv)
        } else if s == "mod"@ {
            Some(Op::Mod)
        } else if s == ">="@ || s == "\u{2265}"@ {
            Some(Op::Ge)
        } else if s == "<="@ || s == "\u{2264}"@ {
            Some(Op::Le)
        } else if s == ">"@ {
            Some(Op::Gt)
        } else if s == "<"@ {
            Some(Op::Lt)
        } else if s == "="@ {
            Some(Op::Eq)
        } else if s == "not"@ || s == "!"@ || s == "\u{00ac}"@ {
            Some(Op::Not)
        } else if s == "and"@ || s == "&&"@ || s == "\u{22c0}"@ {
            Some(Op::And)
        } else if s == "or"@ || s == "||"@ || s == "\u{22c1}"@ {
            Some(Op::Or)
        } else {
            None
        }
    }

    /// Tries to parse an operator.
    pub fn of_str(s: &str) -> (r: Option<Op>)
        ensures
            r == Op::spec_of_str(s@),
    {
        if str_eq(s, "ite") {
            Some(Op::Ite)
        } else if str_eq(s, "=>") || str_eq(s, "implies") || str_eq(s, "\u{21d2}") {
            Some(Op::Implies)
        } else if str_eq(s, "+") {
            Some(Op::Add)
        } else if str_eq(s, "-") {
            Some(Op::Sub)
        } else if str_eq(s, "*") {
            Some(Op::Mul)
        } else if str_eq(s, "/") {
            Some(Op::Div)
        } else if str_eq(s, "div") {
            Some(Op::IDiv)
        } else if str_eq(s, "mod") {
            Some(Op::Mod)
        } else if str_eq(s, ">=") || str_eq(s, "\u{2265}") {
            Some(Op::Ge)
        } else if str_eq(s, "<=") || str_eq(s, "\u{2264}") {
            Some(Op::Le)
        } else if str_eq(s, ">") {
            Some(Op::Gt)
        } else if str_eq(s, "<") {
            Some(Op::Lt)
        } else if str_eq(s, "=") {
            Some(Op::Eq)
        } else if str_eq(s, "not") || str_eq(s, "!") || str_eq(s, "\u{00ac}") {
            Some(Op::Not)
        } else if str_eq(s, "and") || str_eq(s, "&&") || str_eq(s, "\u{22c0}") {
            Some(Op::And)
        } else if str_eq(s, "or") || str_eq(s, "||") || str_eq(s, "\u{22c1}") {
            Some(Op::Or)
        } else {
            None
        }
    }

    /// The relational operators over arithmetic arguments.
    pub open spec fn spec_is_arith_relation(self) -> bool {
        self == Op::Ge || self == Op::Le || self == Op::Gt || self == Op::Lt
    }

    /// True if `self` is an arithmetic relation.
    pub fn is_arith_relation(self) -> (r: bool)
        ensures
            r == self.spec_is_arith_relation(),
    {
        match self {
            Op::Ge | Op::Le | Op::Gt | Op::Lt => true,
            Op::Ite
            | Op::Implies
            | Op::Add
            | Op::Sub
            | Op::Mul
            | Op::Div
            | Op::IDiv
            | Op::Mod
            | Op::Eq
            | Op::Not
            | Op::And
            | Op::Or => false,
        }
    }

    /// Least number of arguments the operator accepts.
    pub open spec fn spec_min_arity(self) -> nat {
        match self {
            Op::Not | Op::Add | Op::Sub | Op::Mul | Op::And | Op::Or => 1,
            Op::Mod | Op::Div | Op::IDiv | Op::Implies | Op::Eq | Op::Le | Op::Lt | Op::Ge
            | Op::Gt => 2,
            Op::Ite => 3,
        }
    }

    /// Minimal arity of `self`.
    pub fn min_arity(self) -> (r: usize)
        ensures
            r == self.spec_min_arity(),
    {
        match self {
            Op::Not | Op::Add | Op::Sub | Op::Mul | Op::And | Op::Or => 1,
            Op::Mod | Op::Div | Op::IDiv | Op::Implies | Op::Eq | Op::Le | Op::Lt | Op::Ge
            | Op::Gt => 2,
            Op::Ite => 3,
        }
    }

    /// Greatest number of arguments the operator accepts, `None` if there
    /// is no bound.
    pub open spec fn spec_max_arity(self) -> Option<nat> {
        match self {
            Op::Not => Some(1 as nat),
            Op::Add | Op::Sub | Op::Mul | Op::And | Op::Or | Op::Implies | Op::Eq | Op::Le
            | Op::Lt | Op::Ge | Op::Gt => None,
            Op::Mod | Op::Div | Op::IDiv => Some(2 as nat),
            Op::Ite => Some(3 as nat),
        }
    }

    /// Maximal arity for `self`, `None` if infinite.
    pub fn max_arity(self) -> (r: Option<usize>)
        ensures
            r matches Some(m) ==> self.spec_max_arity() == Some(m as nat),
            r is None ==> self.spec_max_arity() is None,
    {
        match self {
            Op::Not => Some(1),
            Op::Add | Op::Sub | Op::Mul | Op::And | Op::Or | Op::Implies | Op::Eq | Op::Le
            | Op::Lt | Op::Ge | Op::Gt => None,
            Op::Mod | Op::Div | Op::IDiv => Some(2),
            Op::Ite => Some(3),
        }
    }

    /// True if the operator is left associative.
    pub fn is_left_associative(self) -> (r: bool)
        ensures
            r == self.spec_is_left_associative(),
    {
        match self {
            Op::Add | Op::Sub | Op::Mul | Op::And | Op::Or | Op::Implies | Op::Eq | Op::Le
            | Op::Lt | Op::Ge | Op::Gt => true,
            Op::Not | Op::Mod | Op::Div | Op::IDiv | Op::Ite => false,
        }
    }

    /// All n-ary operators chain to the left; the fixed-arity ones do not
    /// associate at all.
    pub open spec fn spec_is_left_associative(self) -> bool {
        self.spec_max_arity() is None
    }

    /// Human-SMT rendering of the operator, one token per slot.
    pub open spec fn spec_hsmt_str(self) -> Seq<Seq<char>> {
        match self {
            Op::Ite => seq!["if"@, "then"@, "else"@],
            Op::Implies => seq!["\u{21d2}"@],
            Op::Add => seq!["+"@],
            Op::Sub => seq!["-"@],
            Op::Mul => seq!["*"@],
            Op::Div => seq!["/"@],
            Op::IDiv => seq!["/"@],
            Op::Mod => seq!["%"@],
            Op::Ge => seq!["\u{2265}"@],
            Op::Le => seq!["\u{2264}"@],
            Op::Gt => seq![">"@],
            Op::Lt => seq!["<"@],
            Op::Eq => seq!["="@],
            Op::Not => seq!["\u{00ac}"@],
            Op::And => seq!["\u{22c0}"@],
            Op::Or => seq!["\u{22c1}"@],
        }
    }

    /// Human-SMT string representation.
    pub fn hsmt_str(self) -> (r: &'static [&'static str])
        ensures
            r@.len() == self.spec_hsmt_str().len(),
            forall|i: int|
                0 <= i < r@.len() ==> #[trigger] r@[i]@ == self.spec_hsmt_str()[i],
    {
        match self {
            Op::Ite => &["if", "then", "else"],
            Op::Implies => &["\u{21d2}"],
            Op::Add => &["+"],
            Op::Sub => &["-"],
            Op::Mul => &["*"],
            Op::Div => &["/"],
            Op::IDiv => &["/"],
            Op::Mod => &["%"],
            Op::Ge => &["\u{2265}"],
            Op::Le => &["\u{2264}"],
            Op::Gt => &[">"],
            Op::Lt => &["<"],
            Op::Eq => &["="],
            Op::Not => &["\u{00ac}"],
            Op::And => &["\u{22c0}"],
            Op::Or => &["\u{22c1}"],
        }
    }

    /// Human-SMT single-token rendering of the operator.
    pub open spec fn spec_smt_str(self) -> Seq<char> {
        match self {
            Op::Ite => "ite"@,
            Op::Implies => "=>"@,
            Op::Add => "+"@,
            Op::Sub => "-"@,
            Op::Mul => "*"@,
            Op::Div => "/"@,
            Op::IDiv => "/"@,
            Op::Mod => "%"@,
            Op::Ge => "\u{2265}"@,
            Op::Le => "\u{2264}"@,
            Op::Gt => ">"@,
            Op::Lt => "<"@,
            Op::Eq => "="@,
            Op::Not => "\u{00ac}"@,
            Op::And => "\u{22c0}"@,
            Op::Or => "\u{22c1}"@,
        }
    }

    /// Human-SMT string representation.
    pub fn smt_str(self) -> (r: &'static str)
        ensures
            r@ == self.spec_smt_str(),
    {
        match self {
            Op::Ite => "ite",
            Op::Implies => "=>",
            Op::Add => "+",
            Op::Sub => "-",
            Op::Mul => "*",
            Op::Div => "/",
            Op::IDiv => "/",
            Op::Mod => "%",
            Op::Ge => "\u{2265}",
            Op::Le => "\u{2264}",
            Op::Gt => ">",
            Op::Lt => "<",
            Op::Eq => "=",
            Op::Not => "\u{00ac}",
            Op::And => "\u{22c0}",
            Op::Or => "\u{22c1}",
        }
    }

    /// ASCII rendering used when an expression is shown to a user.
    pub open spec fn spec_display_str(self) -> Seq<char> {
        match self {
            Op::Ite => "ite"@,
            Op::Implies => "=>"@,
            Op::Add => "+"@,
            Op::Sub => "-"@,
            Op::Mul => "*"@,
            Op::Div => "/"@,
            Op::IDiv => "div"@,
            Op::Mod => "%"@,
            Op::Ge => ">="@,
            Op::Le => "<="@,
            Op::Gt => ">"@,
            Op::Lt => "<"@,
            Op::Eq => "="@,
            Op::Not => "not"@,
            Op::And => "and"@,
            Op::Or => "or"@,
        }
    }

    /// ASCII rendering used when an expression is shown to a user.
    pub fn display_str(self) -> (r: &'static str)
        ensures
            r@ == self.spec_display_str(),
    {
        match self {
            Op::Ite => "ite",
            Op::Implies => "=>",
            Op::Add => "+",
            Op::Sub => "-",
            Op::Mul => "*",
            Op::Div => "/",
            Op::IDiv => "div",
            Op::Mod => "%",
            Op::Ge => ">=",
            Op::Le => "<=",
            Op::Gt => ">",
            Op::Lt => "<",
            Op::Eq => "=",
            Op::Not => "not",
            Op::And => "and",
            Op::Or => "or",
        }
    }

    /// The operator's wire symbol: what a conforming SMT-LIB2 reader
    /// expects at the head of an application.
    pub open spec fn spec_smt2_str(self) -> Seq<char> {
        match self {
            Op::Ite => "ite"@,
            Op::Implies => "=>"@,
            Op::Add => "+"@,
            Op::Sub => "-"@,
            Op::Mul => "*"@,
            Op::Div => "/"@,
            Op::IDiv => "div"@,
            Op::Mod => "mod"@,
            Op::Ge => ">="@,
            Op::Le => "<="@,
            Op::Gt => ">"@,
            Op::Lt => "<"@,
            Op::Eq => "="@,
            Op::Not => "not"@,
            Op::And => "and"@,
            Op::Or => "or"@,
        }
    }

    /// What `type_check` decides, over the argument types alone: the
    /// result type of an application of `self`, or the first failure in
    /// left-to-right order, after the arity bounds.
    pub open spec fn spec_type_check(self, typs: Seq<Typ>) -> Result<Typ, ErrV> {
        if typs.len() < self.spec_min_arity() {
            Err(ErrV::TooFewArgs { op: self, found: typs.len() })
        } else if self.spec_max_arity() matches Some(m) && typs.len() > m {
            Err(ErrV::TooManyArgs { op: self, found: typs.len() })
        } else {
            match self {
                Op::Ite => if typs[0] != Typ::Bool {
                    Err(ErrV::IteCondNotBool { found: typs[0] })
                } else if typs[1] != typs[2] {
                    Err(ErrV::IteBranchMismatch { thn: typs[1], els: typs[2] })
                } else {
                    Ok(typs[1])
                },
                Op::Implies | Op::And | Op::Or | Op::Not => match first_diff(typs, Typ::Bool, 0) {
                    Some(_) => Err(ErrV::ExpectedBool { op: self }),
                    None => Ok(Typ::Bool),
                },
                Op::Div => if !typs[0].spec_is_arith() {
                    Err(ErrV::ExpectedArith { op: self, found: typs[0] })
                } else if !typs[1].spec_is_arith() {
                    Err(ErrV::ExpectedArith { op: self, found: typs[1] })
                } else {
                    Ok(Typ::Rat)
                },
                Op::Add | Op::Sub | Op::Mul | Op::IDiv | Op::Mod | Op::Le | Op::Ge | Op::Lt
                | Op::Gt => {
                    let first = typs[0];
                    if !first.spec_is_arith() {
                        Err(ErrV::ExpectedArith { op: self, found: first })
                    } else {
                        match first_diff(typs, first, 1) {
                            Some(i) => Err(ErrV::TypMismatch {
                                op: self,
                                expected: first,
                                found: typs[i as int],
                            }),
                            None => if (self == Op::IDiv || self == Op::Mod) && first != Typ::Int {
                                Err(ErrV::ExpectedInt { op: self, found: first })
                            } else if self == Op::Mod {
                                Ok(Typ::Int)
                            } else if self.spec_is_arith_relation() {
                                Ok(Typ::Bool)
                            } else {
                                Ok(first)
                            },
                        }
                    }
                },
                Op::Eq => match first_diff(typs, typs[0], 1) {
                    Some(i) => Err(ErrV::TypMismatch {
                        op: self,
                        expected: typs[0],
                        found: typs[i as int],
                    }),
                    None => Ok(Typ::Bool),
                },
            }
        }
    }

    /// Type-checks an operator application. Runs once at construction;
    /// rejects before a node is created.
    pub fn type_check<T: HasTyp>(self, args: &[T]) -> (r: Result<Typ, Error>)
        ensures
            typ_res_matches(r, self.spec_type_check(typs_of(args@))),
    {
        let n = args.len();
        let mut typs: Vec<Typ> = Vec::new();
        let mut j: usize = 0;
        while j < n
            invariant
                n == args@.len(),
                0 <= j <= n,
                typs@.len() == j,
                forall|k: int| 0 <= k < j ==> typs@[k] == #[trigger] args@[k].spec_typ(),
            decreases n - j,
        {
            typs.push(args[j].typ());
            j += 1;
        }
        proof {
            assert(typs@ =~= typs_of(args@));
        }
        self.check_typs(&typs)
    }

    /// The same check, over argument types that are already at hand.
    fn check_typs(self, typs: &Vec<Typ>) -> (r: Result<Typ, Error>)
        ensures
            typ_res_matches(r, self.spec_type_check(typs@)),
    {
        let n = typs.len();
        if n < self.min_arity() {
            return Err(Error::TooFewArgs { op: self, found: n });
        }
        if let Some(max) = self.max_arity() {
            if n > max {
                return Err(Error::TooManyArgs { op: self, found: n });
            }
        }
        match self {
            Op::Ite => {
                if typs[0] != Typ::Bool {
                    Err(Error::IteCondNotBool { found: typs[0] })
                } else if typs[1] != typs[2] {
                    Err(Error::IteBranchMismatch { thn: typs[1], els: typs[2] })
                } else {
                    Ok(typs[1])
                }
            },
            Op::Implies | Op::And | Op::Or | Op::Not => {
                let mut j: usize = 0;
                while j < n
                    invariant
                        n == typs@.len(),
                        0 <= j <= n,
                        self == Op::Implies || self == Op::And || self == Op::Or || self
                            == Op::Not,
                        n >= self.spec_min_arity(),
                        !(self.spec_max_arity() matches Some(m) && n > m),
                        first_diff(typs@, Typ::Bool, 0) == first_diff(typs@, Typ::Bool, j as nat),
                    decreases n - j,
                {
                    if typs[j] != Typ::Bool {
                        return Err(Error::ExpectedBool { op: self });
                    }
                    j += 1;
                }
                Ok(Typ::Bool)
            },
            Op::Div => {
                if !typs[0].is_arith() {
                    Err(Error::ExpectedArith { op: self, found: typs[0] })
                } else if !typs[1].is_arith() {
                    Err(Error::ExpectedArith { op: self, found: typs[1] })
                } else {
                    Ok(Typ::Rat)
                }
            },
            Op::Add | Op::Sub | Op::Mul | Op::IDiv | Op::Mod | Op::Le | Op::Ge | Op::Lt
            | Op::Gt => {
                let first = typs[0];
                if !first.is_arith() {
                    return Err(Error::ExpectedArith { op: self, found: first });
                }
                let mut j: usize = 1;
                while j < n
                    invariant
                        n == typs@.len(),
                        1 <= j <= n,
                        self == Op::Add || self == Op::Sub || self == Op::Mul || self == Op::IDiv
                            || self == Op::Mod || self == Op::Le || self == Op::Ge || self
                            == Op::Lt || self == Op::Gt,
                        n >= self.spec_min_arity(),
                        !(self.spec_max_arity() matches Some(m) && n > m),
                        first == typs@[0],
                        first.spec_is_arith(),
                        first_diff(typs@, first, 1) == first_diff(typs@, first, j as nat),
                    decreases n - j,
                {
                    if typs[j] != first {
                        return Err(Error::TypMismatch { op: self, expected: first, found: typs[j] });
                    }
                    j += 1;
                }
                if matches!(self, Op::IDiv | Op::Mod) && first != Typ::Int {
                    Err(Error::ExpectedInt { op: self, found: first })
                } else if matches!(self, Op::Mod) {
                    Ok(Typ::Int)
                } else if self.is_arith_relation() {
                    Ok(Typ::Bool)
                } else {
                    Ok(first)
                }
            },
            Op::Eq => {
                let first = typs[0];
                let mut j: usize = 1;
                while j < n
                    invariant
                        n == typs@.len(),
                        1 <= j <= n,
                        self == Op::Eq,
                        n >= self.spec_min_arity(),
                        first == typs@[0],
                        first_diff(typs@, first, 1) == first_diff(typs@, first, j as nat),
                    decreases n - j,
                {
                    if typs[j] != first {
                        return Err(Error::TypMismatch { op: self, expected: first, found: typs[j] });
                    }
                    j += 1;
                }
                Ok(Typ::Bool)
            },
        }
    }

    /// The operator's wire symbol.
    pub fn smt2_str(self) -> (r: &'static str)
        ensures
            r@ == self.spec_smt2_str(),
    {
        match self {
            Op::Ite => "ite",
            Op::Implies => "=>",
            Op::Add => "+",
            Op::Sub => "-",
            Op::Mul => "*",
            Op::Div => "/",
            Op::IDiv => "div",
            Op::Mod => "mod",
            Op::Ge => ">=",
            Op::Le => "<=",
            Op::Gt => ">",
            Op::Lt => "<",
            Op::Eq => "=",
            Op::Not => "not",
            Op::And => "and",
            Op::Or => "or",
        }
    }
}

} // verus!
