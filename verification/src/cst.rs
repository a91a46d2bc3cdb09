//! Constants: booleans, unbounded integers, exact rationals.
//!
//! The spec-level model of a constant is [`CstV`]: a boolean, a
//! mathematical integer, or a numerator/denominator pair. A well-formed
//! rational constant is canonical (positive denominator, lowest terms),
//! which every constructor of this crate guarantees.

use vstd::prelude::*;

use crate::arith::{abs_val, dec_str, int_str, rat_wf};
use crate::big::{
    big_clone, big_dec_str, big_eq, big_is_neg, big_neg, int_of, rat_clone, rat_denom, rat_eq,
    rat_num_of, rat_den_of, rat_numer, rat_of_wf,
};
use crate::err::{ErrV, Error};
use crate::typ::{HasTyp, Typ};
use vstd::string::StringExecFns;

verus! {

/// Spec-level value of a constant.
pub ghost enum CstV {
    /// A boolean.
    B(bool),
    /// A mathematical integer.
    I(int),
    /// A rational, as numerator and denominator.
    R(int, int),
}

/// The type a constant value has.
pub open spec fn typ_of(c: CstV) -> Typ {
    match c {
        CstV::B(_) => Typ::Bool,
        CstV::I(_) => Typ::Int,
        CstV::R(_, _) => Typ::Rat,
    }
}

/// A rational constant value must be canonical; the other shapes always
/// are.
pub open spec fn cst_v_wf(c: CstV) -> bool {
    match c {
        CstV::R(n, d) => rat_wf(n, d),
        _ => true,
    }
}

/// Structural equality of constant values. Rationals compare by value
/// (equivalent for canonical pairs); different shapes are unequal, never
/// an error.
pub open spec fn cst_v_eq(a: CstV, b: CstV) -> bool {
    match (a, b) {
        (CstV::B(x), CstV::B(y)) => x == y,
        (CstV::I(x), CstV::I(y)) => x == y,
        (CstV::R(n1, d1), CstV::R(n2, d2)) => n1 * d2 == n2 * d1,
        (_, _) => false,
    }
}

/// Display text of an integer constant: decimal digits, wrapped in an
/// explicit negation for negative values (SMT-LIB2 numerals are unsigned
/// lexically).
pub open spec fn int_display(i: int) -> Seq<char> {
    if i < 0 {
        "(- "@ + dec_str(abs_val(i)) + ")"@
    } else {
        dec_str(abs_val(i))
    }
}

/// Display text of a rational constant: a division whose literal decimal
/// payloads are never negative. Both components negative: negate both;
/// exactly one negative: wrap the division in an explicit negation.
pub open spec fn rat_display(n: int, d: int) -> Seq<char> {
    if n < 0 && d < 0 {
        "(/ "@ + dec_str(abs_val(n)) + " "@ + dec_str(abs_val(d)) + ")"@
    } else if n < 0 || d < 0 {
        "(- (/ "@ + dec_str(abs_val(n)) + " "@ + dec_str(abs_val(d)) + "))"@
    } else {
        "(/ "@ + dec_str(abs_val(n)) + " "@ + dec_str(abs_val(d)) + ")"@
    }
}

/// Display text of a constant. This is also its SMT-LIB2 encoding.
pub open spec fn cst_display(c: CstV) -> Seq<char> {
    match c {
        CstV::B(b) => if b {
            "true"@
        } else {
            "false"@
        },
        CstV::I(i) => int_display(i),
        CstV::R(n, d) => rat_display(n, d),
    }
}

/// Law: the display text of every negative integer constant is exactly an
/// explicit negation around the decimal digits of its absolute value —
/// it begins with `"(- "`, and the payload between that prefix and the
/// closing parenthesis reads back as the negated magnitude.
pub proof fn lemma_neg_int_display(i: int)
    requires
        i < 0,
    ensures
        cst_display(CstV::I(i)) == "(- "@ + dec_str(abs_val(i)) + ")"@,
        cst_display(CstV::I(i)).take(3) == "(- "@,
{
    reveal_strlit("(- ");
    assert(cst_display(CstV::I(i)).take(3) =~= "(- "@);
}

/// Constants.
///
/// Currently only booleans, integers and rationals are supported.
#[derive(Debug)]
pub enum Cst {
    /// Bool constant.
    B(bool),
    /// Integer constant.
    I(num::BigInt),
    /// Rational constant.
    R(num::BigRational),
}

impl View for Cst {
    type V = CstV;

    open spec fn view(&self) -> CstV {
        match self {
            Cst::B(b) => CstV::B(*b),
            Cst::I(i) => CstV::I(int_of(*i)),
            Cst::R(r) => CstV::R(rat_num_of(*r), rat_den_of(*r)),
        }
    }
}

impl HasTyp for Cst {
    open spec fn spec_typ(&self) -> Typ {
        typ_of(self@)
    }

    fn typ(&self) -> (t: Typ) {
        match self {
            Cst::B(_) => Typ::Bool,
            Cst::I(_) => Typ::Int,
            Cst::R(_) => Typ::Rat,
        }
    }
}

impl Cst {
    /// A rational constant held by this crate is canonical.
    pub open spec fn wf(&self) -> bool {
        cst_v_wf(self@)
    }

    /// Creates a boolean constant.
    pub fn bool(b: bool) -> (r: Self)
        ensures
            r@ == CstV::B(b),
            r.wf(),
    {
        Cst::B(b)
    }

    /// Creates an integer constant.
    pub fn int_cst(i: num::BigInt) -> (r: Self)
        ensures
            r@ == CstV::I(int_of(i)),
            r.wf(),
    {
        Cst::I(i)
    }

    /// Creates a rational constant from a canonical ratio (every ratio
    /// built by `Ratio::new` is canonical).
    pub fn rat(r: num::BigRational) -> (res: Self)
        requires
            rat_of_wf(r),
        ensures
            res@ == CstV::R(rat_num_of(r), rat_den_of(r)),
            res.wf(),
    {
        Cst::R(r)
    }

    /// An equal constant.
    pub fn duplicate(&self) -> (r: Self)
        ensures
            r@ == self@,
    {
        match self {
            Cst::B(b) => Cst::B(*b),
            Cst::I(i) => Cst::I(big_clone(i)),
            Cst::R(r) => Cst::R(rat_clone(r)),
        }
    }

    /// Structural equality; constants of different shapes are unequal,
    /// never an error.
    pub fn eq_cst(&self, other: &Cst) -> (r: bool)
        requires
            self.wf(),
            other.wf(),
        ensures
            r == cst_v_eq(self@, other@),
    {
        match (self, other) {
            (Cst::B(a), Cst::B(b)) => *a == *b,
            (Cst::I(a), Cst::I(b)) => big_eq(a, b),
            (Cst::R(a), Cst::R(b)) => rat_eq(a, b),
            (_, _) => false,
        }
    }

    /// Display text of the constant, which is also its SMT-LIB2 wire
    /// form.
    pub fn display_string(&self) -> (r: String)
        ensures
            r@ == cst_display(self@),
    {
        match self {
            Cst::B(b) => {
                if *b {
                    "true".to_owned()
                } else {
                    "false".to_owned()
                }
            },
            Cst::I(i) => {
                if big_is_neg(i) {
                    let digits = big_dec_str(&big_neg(i));
                    let mut s = "(- ".to_owned();
                    s.append(digits.as_str());
                    s.append(")");
                    proof {
                        assert(s@ =~= int_display(int_of(*i)));
                    }
                    s
                } else {
                    big_dec_str(i)
                }
            },
            Cst::R(r) => {
                let nneg = big_is_neg(rat_numer(r));
                let dneg = big_is_neg(rat_denom(r));
                let num_digits = if nneg {
                    big_dec_str(&big_neg(rat_numer(r)))
                } else {
                    big_dec_str(rat_numer(r))
                };
                let den_digits = if dneg {
                    big_dec_str(&big_neg(rat_denom(r)))
                } else {
                    big_dec_str(rat_denom(r))
                };
                let mut s = if nneg == dneg {
                    "(/ ".to_owned()
                } else {
                    "(- (/ ".to_owned()
                };
                s.append(num_digits.as_str());
                s.append(" ");
                s.append(den_digits.as_str());
                if nneg == dneg {
                    s.append(")");
                } else {
                    s.append("))");
                }
                proof {
                    assert(s@ =~= rat_display(rat_num_of(*r), rat_den_of(*r)));
                }
                s
            },
        }
    }

    /// Encodes the constant for the solver: identical to its display
    /// text, whose sign placement already is valid SMT-LIB2.
    pub fn to_smt2_string(&self) -> (r: String)
        ensures
            r@ == cst_display(self@),
    {
        self.display_string()
    }

    /// Unwraps a boolean constant.
    pub fn as_bool(&self) -> (r: Result<bool, Error>)
        ensures
            match self@ {
                CstV::B(b) => r == Result::<bool, Error>::Ok(b),
                _ => {
                    &&& r matches Err(e)
                    &&& e@ == (ErrV::CstMismatch {
                        expected: Typ::Bool,
                        found: typ_of(self@),
                        text: cst_display(self@),
                    })
                },
            },
    {
        match self {
            Cst::B(b) => Ok(*b),
            _ => Err(
                Error::CstMismatch {
                    expected: Typ::Bool,
                    found: self.typ(),
                    text: self.display_string(),
                },
            ),
        }
    }

    /// Unwraps an integer constant.
    pub fn as_int(&self) -> (r: Result<&num::BigInt, Error>)
        ensures
            match self@ {
                CstV::I(v) => r matches Ok(i) && int_of(*i) == v,
                _ => {
                    &&& r matches Err(e)
                    &&& e@ == (ErrV::CstMismatch {
                        expected: Typ::Int,
                        found: typ_of(self@),
                        text: cst_display(self@),
                    })
                },
            },
    {
        match self {
            Cst::I(i) => Ok(i),
            _ => Err(
                Error::CstMismatch {
                    expected: Typ::Int,
                    found: self.typ(),
                    text: self.display_string(),
                },
            ),
        }
    }

    /// Unwraps a rational constant.
    pub fn as_rat(&self) -> (r: Result<&num::BigRational, Error>)
        ensures
            match self@ {
                CstV::R(n, d) => r matches Ok(q) && rat_num_of(*q) == n && rat_den_of(*q) == d,
                _ => {
                    &&& r matches Err(e)
                    &&& e@ == (ErrV::CstMismatch {
                        expected: Typ::Rat,
                        found: typ_of(self@),
                        text: cst_display(self@),
                    })
                },
            },
    {
        match self {
            Cst::R(q) => Ok(q),
            _ => Err(
                Error::CstMismatch {
                    expected: Typ::Rat,
                    found: self.typ(),
                    text: self.display_string(),
                },
            ),
        }
    }
}

} // verus!
