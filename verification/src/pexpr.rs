//! The polymorphic expression tree.
//!
//! An expression is a constant, a variable, or an operator application;
//! the tree is polymorphic in the variable representation, which gives
//! stateless ([`Expr`]), stateful ([`SExpr`]) and meta ([`MExpr`])
//! expressions from one definition. An application node can only be built
//! through [`PExpr::new_op`], which type-checks and then applies a
//! single-level simplification, so every reachable node is well-typed.

use vstd::prelude::*;

use crate::big::{big_neg, rat_neg};
use crate::cst::{cst_display, typ_of, Cst, CstV};
use crate::err::{ErrV, Error};
use crate::eval::neg_v;
use crate::op::{typs_of, Op};
use crate::text::{char_is_whitespace, chars_to_string, is_ws, str_to_chars};
use crate::typ::{HasTyp, Typ};
use crate::var::{MetaVar, StepSym, SVar, Unroll, Var};
use vstd::string::StringExecFns;

verus! {

/// The polymorphic expression structure.
///
/// Polymorphic in the type of variables: [`Expr`] is `PExpr<Var>` and
/// [`SExpr`] is `PExpr<SVar>`.
#[derive(Debug)]
pub enum PExpr<V> {
    /// A constant.
    Cst(Cst),
    /// A variable.
    Var(V),
    /// An operator application.
    App {
        /// The operator.
        op: Op,
        /// The arguments.
        args: Vec<PExpr<V>>,
    },
}

/// A simple (stateless) expression.
pub type Expr = PExpr<Var>;

/// A stateful expression.
pub type SExpr = PExpr<SVar>;

/// A meta-expression.
pub type MExpr = PExpr<MetaVar>;

impl<V: HasTyp> HasTyp for PExpr<V> {
    /// The derived type of a node, recomputed structurally: a node never
    /// stores its type. On an application this follows the owning
    /// operator's result rule, so on well-typed nodes it agrees with the
    /// type found at construction (guards keep it total on any node).
    open spec fn spec_typ(&self) -> Typ
        decreases self,
    {
        match self {
            PExpr::Cst(c) => typ_of(c@),
            PExpr::Var(v) => v.spec_typ(),
            PExpr::App { op, args } => match op {
                Op::Ite => if args@.len() >= 2 {
                    args@[1].spec_typ()
                } else {
                    Typ::Bool
                },
                Op::Implies | Op::And | Op::Or | Op::Not => Typ::Bool,
                Op::Ge | Op::Le | Op::Gt | Op::Lt | Op::Eq => Typ::Bool,
                Op::Div => Typ::Rat,
                Op::IDiv | Op::Mod => Typ::Int,
                Op::Add | Op::Sub | Op::Mul => if args@.len() >= 1 {
                    args@[0].spec_typ()
                } else {
                    Typ::Int
                },
            },
        }
    }

    fn typ(&self) -> Typ
        decreases *self,
    {
        match self {
            PExpr::Cst(c) => c.typ(),
            PExpr::Var(v) => v.typ(),
            PExpr::App { op, args } => match op {
                Op::Ite => if args.len() >= 2 {
                    args[1].typ()
                } else {
                    Typ::Bool
                },
                Op::Implies | Op::And | Op::Or | Op::Not => Typ::Bool,
                Op::Ge | Op::Le | Op::Gt | Op::Lt | Op::Eq => Typ::Bool,
                Op::Div => Typ::Rat,
                Op::IDiv | Op::Mod => Typ::Int,
                Op::Add | Op::Sub | Op::Mul => if args.len() >= 1 {
                    args[0].typ()
                } else {
                    Typ::Int
                },
            },
        }
    }
}

impl<V: HasTyp> PExpr<V> {
    /// Every reachable expression is well-formed: constants are
    /// canonical, and every application has passed its operator's type
    /// check against its children's types.
    pub open spec fn wf(&self) -> bool
        decreases self,
    {
        match self {
            PExpr::Cst(c) => c.wf(),
            PExpr::Var(_) => true,
            PExpr::App { op, args } => {
                &&& forall|i: int| 0 <= i < args@.len() ==> (#[trigger] args@[i]).wf()
                &&& op.spec_type_check(typs_of(args@)) is Ok
            },
        }
    }
}

/// What the single-level simplification turns a checked application
/// into: a constant one-argument subtraction folds to its negated
/// constant; `add`, `and` and `or` over exactly one argument collapse to
/// that argument; everything else becomes the application node itself.
pub open spec fn simplified_of<V>(op: Op, args: Seq<PExpr<V>>, e: PExpr<V>) -> bool {
    if op == Op::Sub && args.len() == 1 && args[0] matches PExpr::Cst(_) {
        match (args[0], e) {
            (PExpr::Cst(c), PExpr::Cst(c2)) => neg_v(c@) == Ok::<CstV, ErrV>(c2@),
            (_, _) => false,
        }
    } else if (op == Op::Add || op == Op::And || op == Op::Or) && args.len() == 1 {
        e == args[0]
    } else {
        e matches PExpr::App { op: o, args: a } && o == op && a@ == args
    }
}

impl<V: HasTyp> PExpr<V> {
    /// On an application that passed its type check, the derived type is
    /// the type the check returned.
    proof fn lemma_app_typ_agrees(op: Op, args: Vec<PExpr<V>>, t: Typ)
        requires
            op.spec_type_check(typs_of(args@)) == Ok::<Typ, ErrV>(t),
        ensures
            (PExpr::App { op, args }).spec_typ() == t,
    {
        let typs = typs_of(args@);
        assert(forall|i: int|
            0 <= i < args@.len() ==> typs[i] == (#[trigger] args@[i]).spec_typ());
        match op {
            Op::Ite => {
                assert((PExpr::App { op, args }).spec_typ() == args@[1].spec_typ());
            },
            Op::Add | Op::Sub | Op::Mul | Op::IDiv | Op::Mod => {
                assert((PExpr::App { op, args }).spec_typ() == args@[0].spec_typ() || (PExpr::App {
                    op,
                    args,
                }).spec_typ() == Typ::Int);
            },
            _ => {},
        }
    }

    /// Operator application constructor: the only way to build an
    /// application node. Type-checks first — a malformed node is never
    /// constructed — then applies the single-level simplification, which
    /// leaves the type unchanged.
    pub fn new_op(op: Op, args: Vec<Self>) -> (r: Result<Self, Error>)
        requires
            forall|i: int| 0 <= i < args@.len() ==> (#[trigger] args@[i]).wf(),
        ensures
            match op.spec_type_check(typs_of(args@)) {
                Ok(t) => {
                    &&& r matches Ok(e)
                    &&& simplified_of(op, args@, e)
                    &&& e.wf()
                    &&& e.spec_typ() == t
                },
                Err(er) => r matches Err(err) && err@ == er,
            },
    {
        let checked = op.type_check(args.as_slice());
        let t = match checked {
            Ok(t) => t,
            Err(e) => {
                return Err(e);
            },
        };
        proof {
            Self::lemma_app_typ_agrees(op, args, t);
        }
        Ok(Self::simplify_app(op, args))
    }

    /// Simplifies the application of `op` to `args`, **non-recursively**.
    ///
    /// Runs only after a successful type check, which is why a boolean
    /// operand can never reach the negation arm.
    fn simplify_app(op: Op, args: Vec<Self>) -> (r: Self)
        requires
            forall|i: int| 0 <= i < args@.len() ==> (#[trigger] args@[i]).wf(),
            op.spec_type_check(typs_of(args@)) is Ok,
        ensures
            simplified_of(op, args@, r),
            r.wf(),
            r.spec_typ() == (PExpr::App { op, args }).spec_typ(),
    {
        let n = args.len();
        if matches!(op, Op::Sub) && n == 1 && args[0].is_cst() {
            match &args[0] {
                PExpr::Cst(Cst::I(i)) => PExpr::Cst(Cst::I(big_neg(i))),
                PExpr::Cst(Cst::R(q)) => PExpr::Cst(Cst::R(rat_neg(q))),
                PExpr::Cst(Cst::B(_)) => {
                    proof {
                        assert(typs_of(args@)[0] == args@[0].spec_typ());
                        assert(false);
                    }
                    unreached()
                },
                _ => {
                    proof {
                        assert(false);
                    }
                    unreached()
                },
            }
        } else if matches!(op, Op::Add | Op::And | Op::Or) && n == 1 {
            let mut args = args;
            match args.pop() {
                Some(only) => only,
                None => {
                    proof {
                        assert(false);
                    }
                    unreached()
                },
            }
        } else {
            PExpr::App { op, args }
        }
    }
}

/// Law: the single-level simplification pass leaves the derived type of a
/// well-typed application unchanged — the type computed for the checked
/// application and the type of the node the constructor hands out are one
/// and the same.
pub proof fn lemma_simplify_preserves_typ<V: HasTyp>(
    op: Op,
    args: Seq<PExpr<V>>,
    e: PExpr<V>,
    t: Typ,
)
    requires
        op.spec_type_check(typs_of(args)) == Ok::<Typ, ErrV>(t),
        simplified_of(op, args, e),
    ensures
        e.spec_typ() == t,
{
    let typs = typs_of(args);
    assert(forall|i: int| 0 <= i < args.len() ==> typs[i] == (#[trigger] args[i]).spec_typ());
    if op == Op::Sub && args.len() == 1 && args[0] matches PExpr::Cst(_) {
        assert(t == typs[0]);
    } else if (op == Op::Add || op == Op::And || op == Op::Or) && args.len() == 1 {
        if op == Op::And || op == Op::Or {
            crate::op::lemma_first_diff_none(typs, Typ::Bool, 0);
        }
    } else {
        match e {
            PExpr::App { op: o, args: a } => {
                assert(typs_of(a@) =~= typs);
                PExpr::lemma_app_typ_agrees(o, a, t);
            },
            _ => {},
        }
    }
}

impl<V> PExpr<V> {
    /// Variable constructor.
    pub fn new_var(var: V) -> (r: Self)
        ensures
            r == PExpr::<V>::Var(var),
    {
        PExpr::Var(var)
    }

    /// Constant constructor.
    pub fn new_cst(cst: Cst) -> (r: Self)
        ensures
            r == PExpr::<V>::Cst(cst),
    {
        PExpr::Cst(cst)
    }

    /// True if `self` is a constant.
    pub fn is_cst(&self) -> (r: bool)
        ensures
            r == (self matches PExpr::Cst(_)),
    {
        match self {
            PExpr::Cst(_) => true,
            PExpr::Var(_) | PExpr::App { .. } => false,
        }
    }

    /// True if `self` is a variable.
    pub fn is_var(&self) -> (r: bool)
        ensures
            r == (self matches PExpr::Var(_)),
    {
        match self {
            PExpr::Var(_) => true,
            PExpr::Cst(_) | PExpr::App { .. } => false,
        }
    }

    /// True if `self` is an application.
    pub fn is_app(&self) -> (r: bool)
        ensures
            r == (self matches PExpr::App { .. }),
    {
        match self {
            PExpr::App { .. } => true,
            PExpr::Cst(_) | PExpr::Var(_) => false,
        }
    }
}

/// Display text of the arguments from index `i` on, each preceded by one
/// space.
pub open spec fn spec_display_args<V: StepSym>(args: Seq<PExpr<V>>, i: int) -> Seq<char>
    decreases args, args.len() - i,
{
    if i < 0 || i >= args.len() {
        Seq::empty()
    } else {
        " "@ + args[i].spec_display() + spec_display_args(args, i + 1)
    }
}

/// Wire text of the arguments from index `i` on, each preceded by one
/// space, under the step context `step`.
pub open spec fn spec_smt2_args<V: StepSym>(
    args: Seq<PExpr<V>>,
    step: Option<nat>,
    i: int,
) -> Seq<char>
    decreases args, args.len() - i,
{
    if i < 0 || i >= args.len() {
        Seq::empty()
    } else {
        " "@ + args[i].spec_smt2(step) + spec_smt2_args(args, step, i + 1)
    }
}

impl<V: StepSym> PExpr<V> {
    /// Human-facing text of the expression: constants and variables as
    /// themselves, an application as `(<symbol> <arg> <arg> ...)`.
    pub open spec fn spec_display(&self) -> Seq<char>
        decreases self, 0int,
    {
        match self {
            PExpr::Cst(c) => cst_display(c@),
            PExpr::Var(v) => v.spec_sym_plain(),
            PExpr::App { op, args } => "("@ + op.spec_display_str() + spec_display_args(args@, 0)
                + ")"@,
        }
    }

    /// Wire text of the expression: constants in their sign-aware form,
    /// variables under the given step context, an application as
    /// `(<wire-symbol> <arg> <arg> ...)`.
    pub open spec fn spec_smt2(&self, step: Option<nat>) -> Seq<char>
        decreases self, 0int,
    {
        match self {
            PExpr::Cst(c) => cst_display(c@),
            PExpr::Var(v) => match step {
                Some(s) => v.spec_sym_at(s),
                None => v.spec_sym_plain(),
            },
            PExpr::App { op, args } => "("@ + op.spec_smt2_str() + spec_smt2_args(args@, step, 0)
                + ")"@,
        }
    }

    /// Human-facing text of the expression.
    #[verifier::loop_isolation(false)]
    pub fn display_string(&self) -> (r: String)
        ensures
            r@ == self.spec_display(),
        decreases *self,
    {
        match self {
            PExpr::Cst(c) => c.display_string(),
            PExpr::Var(v) => v.sym_plain(),
            PExpr::App { op, args } => {
                let mut s = "(".to_owned();
                s.append(op.display_str());
                let ghost head = s@;
                let n = args.len();
                let mut i: usize = 0;
                while i < n
                    invariant
                        n == args@.len(),
                        0 <= i <= n,
                        head == "("@ + op.spec_display_str(),
                        s@ + spec_display_args(args@, i as int) == head + spec_display_args(
                            args@,
                            0,
                        ),
                    decreases n - i,
                {
                    let ghost pre = s@;
                    s.append(" ");
                    proof {
                        assert(decreases_to!(*self => args@[i as int]));
                    }
                    let part = args[i].display_string();
                    s.append(part.as_str());
                    proof {
                        assert(s@ + spec_display_args(args@, i + 1) =~= pre + spec_display_args(
                            args@,
                            i as int,
                        ));
                    }
                    i += 1;
                }
                s.append(")");
                proof {
                    assert(s@ =~= self.spec_display());
                }
                s
            },
        }
    }

    /// Wire text of the expression under an optional step context.
    #[verifier::loop_isolation(false)]
    fn smt2_string_opt(&self, step: Option<Unroll>) -> (r: String)
        ensures
            r@ == self.spec_smt2(match step {
                Some(s) => Some(s as nat),
                None => None,
            }),
        decreases *self,
    {
        let ghost gstep: Option<nat> = match step {
            Some(s) => Some(s as nat),
            None => None,
        };
        match self {
            PExpr::Cst(c) => c.to_smt2_string(),
            PExpr::Var(v) => match step {
                Some(s) => v.sym_at(s),
                None => v.sym_plain(),
            },
            PExpr::App { op, args } => {
                let mut s = "(".to_owned();
                s.append(op.smt2_str());
                let ghost head = s@;
                let n = args.len();
                let mut i: usize = 0;
                while i < n
                    invariant
                        n == args@.len(),
                        0 <= i <= n,
                        gstep == (match step {
                            Some(s) => Some(s as nat),
                            None => None,
                        }),
                        head == "("@ + op.spec_smt2_str(),
                        s@ + spec_smt2_args(args@, gstep, i as int) == head + spec_smt2_args(
                            args@,
                            gstep,
                            0,
                        ),
                    decreases n - i,
                {
                    let ghost pre = s@;
                    s.append(" ");
                    proof {
                        assert(decreases_to!(*self => args@[i as int]));
                    }
                    let part = args[i].smt2_string_opt(step);
                    s.append(part.as_str());
                    proof {
                        assert(s@ + spec_smt2_args(args@, gstep, i + 1) =~= pre + spec_smt2_args(
                            args@,
                            gstep,
                            i as int,
                        ));
                    }
                    i += 1;
                }
                s.append(")");
                proof {
                    assert(s@ =~= self.spec_smt2(gstep));
                }
                s
            },
        }
    }

    /// Wire text of the expression under the step index `step`.
    pub fn to_smt2_string(&self, step: Unroll) -> (r: String)
        ensures
            r@ == self.spec_smt2(Some(step as nat)),
    {
        self.smt2_string_opt(Some(step))
    }

    /// Wire text of the expression with no step context.
    pub fn to_smt2_string_plain(&self) -> (r: String)
        ensures
            r@ == self.spec_smt2(None),
    {
        self.smt2_string_opt(None)
    }

    /// Negation of a reference to an expression.
    ///
    /// Useful when a formula's negation must be asserted without cloning
    /// the formula itself.
    pub fn negated<'a>(&'a self) -> (r: NotPExpr<'a, V>)
        ensures
            r.spec_expr() == *self,
    {
        NotPExpr { expr: self }
    }
}

/// Index of the first non-whitespace character at or after `i`, or the
/// length when there is none.
pub open spec fn first_nws(s: Seq<char>, i: int) -> int
    decreases s.len() - i,
{
    if i < 0 || i >= s.len() {
        s.len() as int
    } else if !is_ws(s[i]) {
        i
    } else {
        first_nws(s, i + 1)
    }
}

/// Index of the last non-whitespace character at or before `i`, or `-1`
/// when there is none.
pub open spec fn last_nws(s: Seq<char>, i: int) -> int
    decreases i + 1,
{
    if i < 0 || i >= s.len() {
        -1
    } else if !is_ws(s[i]) {
        i
    } else {
        last_nws(s, i - 1)
    }
}

/// The text without its leading and trailing whitespace.
pub open spec fn trim_of(s: Seq<char>) -> Seq<char> {
    let a = first_nws(s, 0);
    if a >= s.len() {
        Seq::empty()
    } else {
        s.subrange(a, last_nws(s, s.len() - 1) + 1)
    }
}

/// The text from index `i` on with every whitespace run collapsed to a
/// single space; `ws` says whether a run is already open.
pub open spec fn collapse(s: Seq<char>, i: int, ws: bool) -> Seq<char>
    decreases s.len() - i,
{
    if i < 0 || i >= s.len() {
        Seq::empty()
    } else if is_ws(s[i]) {
        if ws {
            collapse(s, i + 1, true)
        } else {
            seq![' '] + collapse(s, i + 1, true)
        }
    } else {
        seq![s[i]] + collapse(s, i + 1, false)
    }
}

/// A cleaned display key: trimmed, with internal whitespace runs
/// collapsed to single spaces.
pub open spec fn clean_of(s: Seq<char>) -> Seq<char> {
    collapse(trim_of(s), 0, false)
}

impl<V> PExpr<V> {
    /// Cleans a string representation.
    ///
    /// Useful when a user's own text for an expression must be kept
    /// verbatim as a display key while being insensitive to incidental
    /// formatting: the text is trimmed, and every whitespace run inside
    /// it collapses to a single space.
    #[verifier::loop_isolation(false)]
    pub fn clean_repr(s: &str) -> (res: String)
        ensures
            res@ == clean_of(s@),
    {
        let chars = str_to_chars(s);
        let n = chars.len();
        let mut a: usize = 0;
        while a < n && char_is_whitespace(chars[a])
            invariant
                0 <= a <= n,
                first_nws(chars@, 0) == first_nws(chars@, a as int),
            decreases n - a,
        {
            a += 1;
        }
        if a == n {
            let res = String::new();
            proof {
                assert(res@ =~= clean_of(s@));
            }
            return res;
        }
        let mut b: usize = n - 1;
        while char_is_whitespace(chars[b])
            invariant
                a <= b < n,
                !is_ws(chars@[a as int]),
                last_nws(chars@, n - 1) == last_nws(chars@, b as int),
            decreases b,
        {
            b -= 1;
        }
        let ghost mid = chars@.subrange(a as int, b as int + 1);
        proof {
            assert(trim_of(s@) =~= mid);
        }
        let mut out: Vec<char> = Vec::new();
        let mut ws = false;
        let mut i: usize = a;
        while i <= b
            invariant
                a <= i <= b + 1,
                out@ + collapse(mid, i - a, ws) == collapse(mid, 0, false),
            decreases b + 1 - i,
        {
            let ghost pre = out@;
            let ghost ws0 = ws;
            let ghost k = i - a;
            proof {
                assert(mid[k] == chars@[i as int]);
            }
            let c = chars[i];
            if char_is_whitespace(c) {
                if !ws {
                    out.push(' ');
                    ws = true;
                }
            } else {
                out.push(c);
                ws = false;
            }
            proof {
                assert(pre + collapse(mid, k, ws0) == collapse(mid, 0, false));
                assert(out@ + collapse(mid, k + 1, ws) =~= pre + collapse(mid, k, ws0));
            }
            i += 1;
        }
        let res = chars_to_string(&out);
        proof {
            assert(res@ =~= clean_of(s@));
        }
        res
    }
}

/// Number of nodes in an expression.
pub open spec fn size<V>(e: PExpr<V>) -> nat
    decreases e,
{
    match e {
        PExpr::App { args, .. } => 1 + size_seq(args@),
        _ => 1,
    }
}

/// Number of nodes in a sequence of expressions.
pub open spec fn size_seq<V>(args: Seq<PExpr<V>>) -> nat
    decreases args,
{
    if args.len() == 0 {
        0
    } else {
        size(args[0]) + size_seq(args.drop_first())
    }
}

/// Splitting the node count of a suffix at its head.
proof fn lemma_size_seq_skip<V>(s: Seq<PExpr<V>>, k: int)
    requires
        0 <= k < s.len(),
    ensures
        size_seq(s.skip(k)) == size(s[k]) + size_seq(s.skip(k + 1)),
{
    assert(s.skip(k)[0] == s[k]);
    assert(s.skip(k).drop_first() =~= s.skip(k + 1));
}

/// The three callbacks fold the expression `e` to the value `r`: each
/// leaf relates to its value by the matching callback's postcondition,
/// and each application's value relates to its children's values by the
/// application callback's postcondition.
pub open spec fn folds<V, Acc, VF: Fn(&V) -> Acc, CF: Fn(&Cst) -> Acc, AF: Fn(Op, Vec<Acc>) -> Acc>(
    vf: VF,
    cf: CF,
    af: AF,
    e: PExpr<V>,
    r: Acc,
) -> bool
    decreases e,
{
    match e {
        PExpr::Var(v) => call_ensures(vf, (&v,), r),
        PExpr::Cst(c) => call_ensures(cf, (&c,), r),
        PExpr::App { op, args } => exists|accs: Vec<Acc>|
            {
                &&& accs@.len() == args@.len()
                &&& forall|i: int|
                    0 <= i < args@.len() ==> folds(vf, cf, af, #[trigger] args@[i], accs@[i])
                &&& #[trigger] call_ensures(af, (op, accs), r)
            },
    }
}

/// One suspended application during the iterative fold: its operator, the
/// borrowed argument list, and the values already folded for the leading
/// arguments. The child currently being folded is the one at index
/// `done.len()`.
struct FoldFrame<'a, V, Acc> {
    /// The application's operator.
    op: Op,
    /// The application's arguments.
    args: &'a Vec<PExpr<V>>,
    /// Fold results for the first `done.len()` arguments.
    done: Vec<Acc>,
}

/// Where the iterative fold stands: descending into an expression, or
/// carrying a finished value back up.
enum FoldWalk<'a, V, Acc> {
    /// About to fold this expression.
    Down(&'a PExpr<V>),
    /// Holding the value of the active child of the topmost frame.
    Up(Acc),
}

/// The application node a frame stands for.
spec fn frame_expr<'a, V, Acc>(f: FoldFrame<'a, V, Acc>) -> PExpr<V> {
    PExpr::App { op: f.op, args: *f.args }
}

/// The child the fold is currently below.
spec fn frame_child<'a, V, Acc>(f: FoldFrame<'a, V, Acc>) -> PExpr<V> {
    f.args@[f.done@.len() as int]
}

/// A frame is live (has an active child) and its finished values fold
/// their arguments.
spec fn frame_ok<'a, V, Acc, VF: Fn(&V) -> Acc, CF: Fn(&Cst) -> Acc, AF: Fn(Op, Vec<Acc>) -> Acc>(
    vf: VF,
    cf: CF,
    af: AF,
    f: FoldFrame<'a, V, Acc>,
) -> bool {
    &&& f.done@.len() < f.args@.len()
    &&& forall|i: int|
        0 <= i < f.done@.len() ==> folds(vf, cf, af, f.args@[i], #[trigger] f.done@[i])
}

/// The whole stack is consistent: every frame is live, the bottom frame
/// is the root, and each frame's active child is the next frame's node.
spec fn stack_ok<'a, V, Acc, VF: Fn(&V) -> Acc, CF: Fn(&Cst) -> Acc, AF: Fn(Op, Vec<Acc>) -> Acc>(
    vf: VF,
    cf: CF,
    af: AF,
    root: PExpr<V>,
    stack: Seq<FoldFrame<'a, V, Acc>>,
) -> bool {
    &&& forall|j: int| 0 <= j < stack.len() ==> frame_ok(vf, cf, af, #[trigger] stack[j])
    &&& stack.len() > 0 ==> frame_expr(stack[0]) == root
    &&& forall|j: int|
        0 <= j < stack.len() - 1 ==> frame_child(#[trigger] stack[j]) == frame_expr(stack[j + 1])
}

/// The expression whose fold value is being produced right now.
spec fn fold_target<'a, V, Acc>(
    root: PExpr<V>,
    stack: Seq<FoldFrame<'a, V, Acc>>,
) -> PExpr<V> {
    if stack.len() == 0 {
        root
    } else {
        frame_child(stack.last())
    }
}

/// Nodes a frame still has to visit after its active child.
spec fn frame_pending<'a, V, Acc>(f: FoldFrame<'a, V, Acc>) -> nat {
    size_seq(f.args@.skip(f.done@.len() + 1int))
}

/// Nodes the whole stack still has to visit.
spec fn stack_pending<'a, V, Acc>(stack: Seq<FoldFrame<'a, V, Acc>>) -> nat
    decreases stack.len(),
{
    if stack.len() == 0 {
        0
    } else {
        frame_pending(stack.last()) + stack_pending(stack.drop_last())
    }
}

/// Nodes still to visit below the current walk position.
spec fn walk_size<'a, V, Acc>(w: FoldWalk<'a, V, Acc>) -> nat {
    match w {
        FoldWalk::Down(cur) => size(*cur),
        FoldWalk::Up(_) => 0,
    }
}

/// Tie-breaker between the two walk directions.
spec fn walk_tag<'a, V, Acc>(w: FoldWalk<'a, V, Acc>) -> int {
    match w {
        FoldWalk::Down(_) => 0,
        FoldWalk::Up(_) => 1,
    }
}

impl<V> PExpr<V> {
    /// Bottom-up fold over an expression: visits the tree depth-first and
    /// left-to-right, combining each application's already-folded children
    /// with the application callback.
    ///
    /// Implemented with an explicit frame stack rather than native call
    /// recursion, so fold depth is bounded only by available memory:
    /// deeply nested, machine-generated formulas cannot overflow the call
    /// stack.
    #[verifier::rlimit(100)]
    pub fn fold<'a, Acc, VF: Fn(&V) -> Acc, CF: Fn(&Cst) -> Acc, AF: Fn(
        Op,
        Vec<Acc>,
    ) -> Acc>(
        &'a self,
        var_action: VF,
        cst_action: CF,
        app_action: AF,
    ) -> (r: Acc)
        requires
            forall|v: &V| #[trigger] call_requires(var_action, (v,)),
            forall|c: &Cst| #[trigger] call_requires(cst_action, (c,)),
            forall|o: Op, accs: Vec<Acc>| #[trigger] call_requires(app_action, (o, accs)),
        ensures
            folds(var_action, cst_action, app_action, *self, r),
    {
        let mut stack: Vec<FoldFrame<'a, V, Acc>> = Vec::new();
        let mut walk: FoldWalk<'a, V, Acc> = FoldWalk::Down(self);
        loop
            invariant
                forall|v: &V| #[trigger] call_requires(var_action, (v,)),
                forall|c: &Cst| #[trigger] call_requires(cst_action, (c,)),
                forall|o: Op, accs: Vec<Acc>| #[trigger] call_requires(app_action, (o, accs)),
                stack_ok(var_action, cst_action, app_action, *self, stack@),
                match walk {
                    FoldWalk::Down(cur) => *cur == fold_target(*self, stack@),
                    FoldWalk::Up(acc) => folds(
                        var_action,
                        cst_action,
                        app_action,
                        fold_target(*self, stack@),
                        acc,
                    ),
                },
            decreases
                    walk_size(walk) + stack_pending(stack@),
                    stack@.len(),
                    walk_tag(walk),
        {
            match walk {
                FoldWalk::Down(cur) => {
                    match cur {
                        PExpr::Var(v) => {
                            let acc = var_action(v);
                            walk = FoldWalk::Up(acc);
                        },
                        PExpr::Cst(c) => {
                            let acc = cst_action(c);
                            walk = FoldWalk::Up(acc);
                        },
                        PExpr::App { op, args } => {
                            if args.len() == 0 {
                                let none: Vec<Acc> = Vec::new();
                                let ghost gnone = none;
                                let acc = app_action(*op, none);
                                proof {
                                    assert(call_ensures(app_action, (*op, gnone), acc));
                                    assert(folds(
                                        var_action,
                                        cst_action,
                                        app_action,
                                        *cur,
                                        acc,
                                    ));
                                }
                                walk = FoldWalk::Up(acc);
                            } else {
                                let ghost pre_stack = stack@;
                                stack.push(FoldFrame { op: *op, args, done: Vec::new() });
                                proof {
                                    assert(stack@.drop_last() =~= pre_stack);
                                    lemma_size_seq_skip(args@, 0);
                                }
                                walk = FoldWalk::Down(&args[0]);
                            }
                        },
                    }
                },
                FoldWalk::Up(acc) => {
                    let ghost pre_stack = stack@;
                    match stack.pop() {
                        None => {
                            return acc;
                        },
                        Some(f) => {
                            proof {
                                assert(pre_stack.drop_last() =~= stack@);
                                assert(f == pre_stack.last());
                            }
                            let FoldFrame { op, args, mut done } = f;
                            let ghost pre_done = done@;
                            done.push(acc);
                            if done.len() < args.len() {
                                let idx = done.len();
                                let ghost mid_stack = stack@;
                                stack.push(FoldFrame { op, args, done });
                                proof {
                                    assert(stack@.drop_last() =~= mid_stack);
                                    lemma_size_seq_skip(args@, idx as int);
                                }
                                walk = FoldWalk::Down(&args[idx]);
                            } else {
                                let ghost gdvec = done;
                                let acc2 = app_action(op, done);
                                proof {
                                    assert(gdvec@.len() == args@.len());
                                    assert(call_ensures(app_action, (op, gdvec), acc2));
                                    assert(folds(
                                        var_action,
                                        cst_action,
                                        app_action,
                                        frame_expr(pre_stack.last()),
                                        acc2,
                                    ));
                                    lemma_size_seq_skip(args@, gdvec@.len() - 1);
                                }
                                walk = FoldWalk::Up(acc2);
                            }
                        },
                    }
                },
            }
        }
    }
}

/// Represents the negation of a borrowed expression.
///
/// It never copies its referent: it writes `(not <referent>)` around the
/// borrowed expression's own wire text.
pub struct NotPExpr<'a, V> {
    /// The borrowed expression.
    expr: &'a PExpr<V>,
}

impl<'a, V> NotPExpr<'a, V> {
    /// The borrowed expression, at the spec level.
    pub closed spec fn spec_expr(&self) -> PExpr<V> {
        *self.expr
    }

    /// Wraps a borrowed expression.
    pub fn new(expr: &'a PExpr<V>) -> (r: Self)
        ensures
            r.spec_expr() == *expr,
    {
        NotPExpr { expr }
    }
}

impl<'a, V: StepSym> NotPExpr<'a, V> {
    /// Wire text of the negation under the step index `step`.
    pub fn to_smt2_string(&self, step: Unroll) -> (r: String)
        ensures
            r@ == "(not "@ + self.spec_expr().spec_smt2(Some(step as nat)) + ")"@,
    {
        let mut s = "(not ".to_owned();
        let inner = self.expr.to_smt2_string(step);
        s.append(inner.as_str());
        s.append(")");
        proof {
            assert(s@ =~= "(not "@ + self.spec_expr().spec_smt2(Some(step as nat)) + ")"@);
        }
        s
    }
}

} // verus!
