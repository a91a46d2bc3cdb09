//! Variables: stateless, stateful (two-state), and untyped
//! meta-variables, with their step-indexed wire names.

use vstd::prelude::*;

use crate::arith::dec_str;
use crate::text::dec_string_u128;
use crate::typ::{HasTyp, Typ};
use vstd::string::StringExecFns;

verus! {

/// Step index. In a stateful expression this is the index of the
/// *current* step: at index 7, variable `v` in the current step encodes
/// as `v@7` and as `v@8` in the next step.
pub type Unroll = usize;

/// A symbol with a solver-facing wire name, both with and without a step
/// context.
pub trait StepSym {
    /// Wire name under the step index `step`.
    spec fn spec_sym_at(&self, step: nat) -> Seq<char>;

    /// Wire name with no step context.
    spec fn spec_sym_plain(&self) -> Seq<char>;

    /// Writes the wire name under the step index `step`.
    fn sym_at(&self, step: Unroll) -> (r: String)
        ensures
            r@ == self.spec_sym_at(step as nat),
    ;

    /// Writes the wire name with no step context.
    fn sym_plain(&self) -> (r: String)
        ensures
            r@ == self.spec_sym_plain(),
    ;
}

/// A stateless variable.
///
/// This type of variable is used in stateless expressions.
#[derive(Debug, Clone)]
pub struct Var {
    /// Variable identifier.
    id: String,
    /// Type of the variable.
    typ: Typ,
}

impl Var {
    /// The identifier, at the spec level.
    pub closed spec fn spec_id(&self) -> Seq<char> {
        self.id@
    }

    /// Constructor.
    pub fn new(id: &str, typ: Typ) -> (r: Self)
        ensures
            r.spec_id() == id@,
            r.spec_typ() == typ,
    {
        Var { id: id.to_owned(), typ }
    }

    /// Identifier accessor.
    pub fn id(&self) -> (r: &str)
        ensures
            r@ == self.spec_id(),
    {
        self.id.as_str()
    }

    /// An equal variable.
    pub fn duplicate(&self) -> (r: Self)
        ensures
            r.spec_id() == self.spec_id(),
            r.spec_typ() == self.spec_typ(),
    {
        Var { id: self.id.clone(), typ: self.typ }
    }
}

impl HasTyp for Var {
    closed spec fn spec_typ(&self) -> Typ {
        self.typ
    }

    fn typ(&self) -> Typ {
        self.typ
    }
}

impl StepSym for Var {
    /// `<id>@<step>`: even a stateless variable is step-suffixed when a
    /// step context is given.
    open spec fn spec_sym_at(&self, step: nat) -> Seq<char> {
        self.spec_id() + "@"@ + dec_str(step)
    }

    /// Its bare identifier.
    open spec fn spec_sym_plain(&self) -> Seq<char> {
        self.spec_id()
    }

    fn sym_at(&self, step: Unroll) -> (r: String) {
        let mut s = self.id.clone();
        s.append("@");
        let digits = dec_string_u128(step as u128);
        s.append(digits.as_str());
        proof {
            assert(s@ =~= self.spec_sym_at(step as nat));
        }
        s
    }

    fn sym_plain(&self) -> (r: String) {
        self.id.clone()
    }
}

/// A stateful variable.
///
/// This type of variable is used in stateful expressions: expressions
/// that span over two steps, typically a system's transition relation. A
/// stateful variable is a [`Var`] plus a *next* flag saying whether it
/// refers to the current or the next version of the underlying variable.
#[derive(Debug, Clone)]
pub struct SVar {
    /// Underlying variable.
    var: Var,
    /// True if the variable refers to the next state version.
    nxt: bool,
}

impl SVar {
    /// The underlying variable, at the spec level.
    pub closed spec fn spec_var(&self) -> Var {
        self.var
    }

    /// The *next* flag, at the spec level.
    pub closed spec fn spec_next(&self) -> bool {
        self.nxt
    }

    /// The identifier, at the spec level.
    pub open spec fn spec_id(&self) -> Seq<char> {
        self.spec_var().spec_id()
    }

    /// State variable constructor with a `next` flag.
    pub fn new(var: Var, nxt: bool) -> (r: Self)
        ensures
            r.spec_var() == var,
            r.spec_next() == nxt,
    {
        SVar { var, nxt }
    }

    /// Constructor for next state variables.
    pub fn new_next(var: Var) -> (r: Self)
        ensures
            r.spec_var() == var,
            r.spec_next(),
    {
        Self::new(var, true)
    }

    /// Constructor for current state variables.
    pub fn new_curr(var: Var) -> (r: Self)
        ensures
            r.spec_var() == var,
            !r.spec_next(),
    {
        Self::new(var, false)
    }

    /// True if the state variable is a next state variable.
    pub fn is_next(&self) -> (r: bool)
        ensures
            r == self.spec_next(),
    {
        self.nxt
    }

    /// The underlying variable.
    pub fn var(&self) -> (r: &Var)
        ensures
            *r == self.spec_var(),
    {
        &self.var
    }

    /// Identifier accessor.
    pub fn id(&self) -> (r: &str)
        ensures
            r@ == self.spec_id(),
    {
        self.var.id()
    }

    /// An equal variable.
    pub fn duplicate(&self) -> (r: Self)
        ensures
            r.spec_var().spec_id() == self.spec_var().spec_id(),
            r.spec_var().spec_typ() == self.spec_var().spec_typ(),
            r.spec_next() == self.spec_next(),
    {
        SVar { var: self.var.duplicate(), nxt: self.nxt }
    }
}

impl HasTyp for SVar {
    open spec fn spec_typ(&self) -> Typ {
        self.spec_var().spec_typ()
    }

    fn typ(&self) -> Typ {
        self.var.typ()
    }
}

impl StepSym for SVar {
    /// `<id>@<step>` for the current step, `<id>@<step + 1>` for the next
    /// one.
    open spec fn spec_sym_at(&self, step: nat) -> Seq<char> {
        self.spec_id() + "@"@ + dec_str(if self.spec_next() {
            step + 1
        } else {
            step
        })
    }

    /// With no step context the current/next steps default to `@0`/`@1`.
    open spec fn spec_sym_plain(&self) -> Seq<char> {
        self.spec_id() + "@"@ + dec_str(if self.spec_next() {
            1
        } else {
            0
        })
    }

    fn sym_at(&self, step: Unroll) -> (r: String) {
        let idx: u128 = if self.nxt {
            step as u128 + 1
        } else {
            step as u128
        };
        let mut s = self.var.id().to_owned();
        s.append("@");
        let digits = dec_string_u128(idx);
        s.append(digits.as_str());
        proof {
            assert(s@ =~= self.spec_sym_at(step as nat));
        }
        s
    }

    fn sym_plain(&self) -> (r: String) {
        let mut s = self.var.id().to_owned();
        s.append("@");
        if self.nxt {
            s.append("1");
        } else {
            s.append("0");
        }
        proof {
            reveal_strlit("0");
            reveal_strlit("1");
            assert(dec_str(0) =~= "0"@);
            assert(dec_str(1) =~= "1"@);
            assert(s@ =~= self.spec_sym_plain());
        }
        s
    }
}

/// A meta-variable: a bare identifier with no declared type, used by the
/// script layer to parametrize expression templates.
#[derive(Debug, Clone)]
pub struct MetaVar {
    /// Variable identifier.
    pub ident: String,
}

impl MetaVar {
    /// Constructor.
    pub fn new(ident: &str) -> (r: Self)
        ensures
            r.ident@ == ident@,
    {
        MetaVar { ident: ident.to_owned() }
    }
}

} // verus!
