//! Constant-folding evaluation of operator applications.
//!
//! Evaluation works on already-reduced constants: callers substitute
//! variables before folding. Arity is re-checked defensively; types are
//! not, so a shape mismatch surfaces as a value error rather than a type
//! error, and heterogeneous equality simply yields `false`.

use vstd::prelude::*;

use crate::big::{
    big_add, big_le, big_lt, big_mul, big_neg, big_quot, big_rem, big_sub, rat_add, rat_div,
    rat_from_int, rat_le, rat_lt, rat_mul, rat_neg, rat_new, rat_sub,
};
use crate::arith::{norm_den, norm_num, quot, rem_t};
use crate::cst::{cst_display, cst_v_eq, cst_v_wf, typ_of, Cst, CstV};
use crate::err::{ErrV, Error};
use crate::op::Op;
use crate::typ::{HasTyp, Typ};

verus! {

/// The canonical rational constant with value `n / d` (for `d != 0`).
pub open spec fn rat_v(n: int, d: int) -> CstV {
    CstV::R(norm_num(n, d), norm_den(n, d))
}

/// The views of a sequence of constants.
pub open spec fn views(args: Seq<Cst>) -> Seq<CstV> {
    args.map_values(|c: Cst| c@)
}

/// Value error: a constant that should have been boolean.
pub open spec fn not_bool_err(c: CstV) -> ErrV {
    ErrV::CstMismatch { expected: Typ::Bool, found: typ_of(c), text: cst_display(c) }
}

/// Value error: a binary step over operands of the wrong shapes.
pub open spec fn bin_err(op: Op, a: CstV, b: CstV) -> ErrV {
    ErrV::BinMismatch {
        op,
        lft_text: cst_display(a),
        lft_typ: typ_of(a),
        rgt_text: cst_display(b),
        rgt_typ: typ_of(b),
    }
}

/// One step of `+`, `-` or `*`: exact integer or rational arithmetic;
/// anything else is a value error.
pub open spec fn bin_arith_v(op: Op, a: CstV, b: CstV) -> Result<CstV, ErrV> {
    match (a, b) {
        (CstV::I(x), CstV::I(y)) => Ok(
            CstV::I(
                if op == Op::Add {
                    x + y
                } else if op == Op::Sub {
                    x - y
                } else {
                    x * y
                },
            ),
        ),
        (CstV::R(n1, d1), CstV::R(n2, d2)) => Ok(
            if op == Op::Add {
                rat_v(n1 * d2 + n2 * d1, d1 * d2)
            } else if op == Op::Sub {
                rat_v(n1 * d2 - n2 * d1, d1 * d2)
            } else {
                rat_v(n1 * n2, d1 * d2)
            },
        ),
        (_, _) => Err(bin_err(op, a, b)),
    }
}

/// Left-to-right fold of the binary rule over `args[i ..]`.
pub open spec fn fold_arith_v(op: Op, acc: CstV, args: Seq<CstV>, i: int) -> Result<CstV, ErrV>
    decreases args.len() - i,
{
    if i < 0 || i >= args.len() {
        Ok(acc)
    } else {
        match bin_arith_v(op, acc, args[i]) {
            Ok(acc2) => fold_arith_v(op, acc2, args, i + 1),
            Err(e) => Err(e),
        }
    }
}

/// Unary negation (a one-argument subtraction).
pub open spec fn neg_v(c: CstV) -> Result<CstV, ErrV> {
    match c {
        CstV::I(x) => Ok(CstV::I(-x)),
        CstV::R(n, d) => Ok(CstV::R(-n, d)),
        CstV::B(_) => Err(
            ErrV::UnMismatch { op: Op::Sub, text: cst_display(c), found: typ_of(c) },
        ),
    }
}

/// Division: integer operands promote to rationals, the result is always
/// an exact rational.
pub open spec fn div_v(a: CstV, b: CstV) -> Result<CstV, ErrV> {
    match (a, b) {
        (CstV::I(x), CstV::I(y)) => Ok(rat_v(x, y)),
        (CstV::R(n1, d1), CstV::R(n2, d2)) => Ok(rat_v(n1 * d2, d1 * n2)),
        (CstV::I(x), CstV::R(n2, d2)) => Ok(rat_v(x * d2, n2)),
        (CstV::R(n1, d1), CstV::I(y)) => Ok(rat_v(n1, d1 * y)),
        (_, _) => Err(bin_err(Op::Div, a, b)),
    }
}

/// Integer division: truncating, integers only.
pub open spec fn idiv_v(a: CstV, b: CstV) -> Result<CstV, ErrV> {
    match (a, b) {
        (CstV::I(x), CstV::I(y)) => Ok(CstV::I(quot(x, y))),
        (_, _) => Err(bin_err(Op::IDiv, a, b)),
    }
}

/// Modulo: remainder of truncating division, integers only.
pub open spec fn mod_v(a: CstV, b: CstV) -> Result<CstV, ErrV> {
    match (a, b) {
        (CstV::I(x), CstV::I(y)) => Ok(CstV::I(rem_t(x, y))),
        (_, _) => Err(bin_err(Op::Mod, a, b)),
    }
}

/// One relational comparison; rationals compare by cross-multiplication,
/// which is their value order for canonical operands.
pub open spec fn cmp_v(op: Op, a: CstV, b: CstV) -> Result<bool, ErrV> {
    match (a, b) {
        (CstV::I(x), CstV::I(y)) => Ok(
            if op == Op::Ge {
                x >= y
            } else if op == Op::Le {
                x <= y
            } else if op == Op::Gt {
                x > y
            } else {
                x < y
            },
        ),
        (CstV::R(n1, d1), CstV::R(n2, d2)) => Ok(
            if op == Op::Ge {
                n1 * d2 >= n2 * d1
            } else if op == Op::Le {
                n1 * d2 <= n2 * d1
            } else if op == Op::Gt {
                n1 * d2 > n2 * d1
            } else {
                n1 * d2 < n2 * d1
            },
        ),
        (_, _) => Err(bin_err(op, a, b)),
    }
}

/// A relational chain holds when every adjacent pair holds; it
/// short-circuits to `false` at the first failing pair. `i` is the index
/// of the right operand of the next pair.
pub open spec fn chain_v(op: Op, args: Seq<CstV>, i: int) -> Result<CstV, ErrV>
    decreases args.len() - i,
{
    if i < 1 || i >= args.len() {
        Ok(CstV::B(true))
    } else {
        match cmp_v(op, args[i - 1], args[i]) {
            Err(e) => Err(e),
            Ok(false) => Ok(CstV::B(false)),
            Ok(true) => chain_v(op, args, i + 1),
        }
    }
}

/// Equality: the first argument against each later one, structurally;
/// different shapes yield `false`, never an error.
pub open spec fn eq_v(args: Seq<CstV>, i: int) -> Result<CstV, ErrV>
    decreases args.len() - i,
{
    if i < 1 || i >= args.len() {
        Ok(CstV::B(true))
    } else if !cst_v_eq(args[0], args[i]) {
        Ok(CstV::B(false))
    } else {
        eq_v(args, i + 1)
    }
}

/// Conjunction with the standard short-circuit: `false` at the first
/// false argument, else `true`.
pub open spec fn and_v(args: Seq<CstV>, i: int) -> Result<CstV, ErrV>
    decreases args.len() - i,
{
    if i < 0 || i >= args.len() {
        Ok(CstV::B(true))
    } else {
        match args[i] {
            CstV::B(false) => Ok(CstV::B(false)),
            CstV::B(true) => and_v(args, i + 1),
            _ => Err(not_bool_err(args[i])),
        }
    }
}

/// Disjunction with the standard short-circuit: `true` at the first true
/// argument, else `false`.
pub open spec fn or_v(args: Seq<CstV>, i: int) -> Result<CstV, ErrV>
    decreases args.len() - i,
{
    if i < 0 || i >= args.len() {
        Ok(CstV::B(false))
    } else {
        match args[i] {
            CstV::B(true) => Ok(CstV::B(true)),
            CstV::B(false) => or_v(args, i + 1),
            _ => Err(not_bool_err(args[i])),
        }
    }
}

/// Right-associative implication chain: `true` as soon as an antecedent
/// before the last argument is false; the last argument itself when every
/// antecedent is true.
pub open spec fn implies_v(args: Seq<CstV>, i: int) -> Result<CstV, ErrV>
    decreases args.len() - i,
{
    if i < 0 || i >= args.len() - 1 {
        Ok(args[i])
    } else {
        match args[i] {
            CstV::B(false) => Ok(CstV::B(true)),
            CstV::B(true) => implies_v(args, i + 1),
            _ => Err(not_bool_err(args[i])),
        }
    }
}

/// A constant value that a division may not divide by: an arithmetic
/// zero.
pub open spec fn nonzero_v(c: CstV) -> bool {
    match c {
        CstV::I(x) => x != 0,
        CstV::R(n, _) => n != 0,
        CstV::B(_) => true,
    }
}

/// What `eval` demands of its arguments: canonical constants, and no
/// division by an arithmetic zero (on which the big-number backend does
/// not return).
pub open spec fn eval_pre(op: Op, vs: Seq<CstV>) -> bool {
    &&& forall|i: int| 0 <= i < vs.len() ==> cst_v_wf(#[trigger] vs[i])
    &&& op == Op::Div && vs.len() == 2 ==> nonzero_v(vs[1])
    &&& (op == Op::IDiv || op == Op::Mod) && vs.len() == 2 ==> vs[1] != CstV::I(0)
}

/// What applying `op` to the constant values `args` yields: a constant,
/// or the first value error in evaluation order, after the defensive
/// arity re-check.
pub open spec fn spec_eval(op: Op, args: Seq<CstV>) -> Result<CstV, ErrV> {
    if args.len() < op.spec_min_arity() {
        Err(ErrV::TooFewArgs { op, found: args.len() })
    } else if op.spec_max_arity() matches Some(m) && args.len() > m {
        Err(ErrV::TooManyArgs { op, found: args.len() })
    } else {
        match op {
            Op::Ite => match args[0] {
                CstV::B(b) => Ok(if b { args[1] } else { args[2] }),
                _ => Err(not_bool_err(args[0])),
            },
            Op::Implies => implies_v(args, 0),
            Op::Add => fold_arith_v(Op::Add, args[0], args, 1),
            Op::Sub => if args.len() == 1 {
                neg_v(args[0])
            } else {
                fold_arith_v(Op::Sub, args[0], args, 1)
            },
            Op::Mul => fold_arith_v(Op::Mul, args[0], args, 1),
            Op::Div => div_v(args[0], args[1]),
            Op::IDiv => idiv_v(args[0], args[1]),
            Op::Mod => mod_v(args[0], args[1]),
            Op::Ge | Op::Le | Op::Gt | Op::Lt => chain_v(op, args, 1),
            Op::Eq => eq_v(args, 1),
            Op::Not => match args[0] {
                CstV::B(b) => Ok(CstV::B(!b)),
                _ => Err(not_bool_err(args[0])),
            },
            Op::And => and_v(args, 0),
            Op::Or => or_v(args, 0),
        }
    }
}

/// An executable evaluation result agrees with its spec-level
/// counterpart; a returned constant is canonical.
pub open spec fn eval_res_matches(r: Result<Cst, Error>, s: Result<CstV, ErrV>) -> bool {
    match s {
        Ok(v) => r matches Ok(c) && c@ == v && cst_v_wf(c@),
        Err(e) => r matches Err(err) && err@ == e,
    }
}

/// An executable comparison result agrees with its spec-level
/// counterpart.
pub open spec fn bool_res_matches(r: Result<bool, Error>, s: Result<bool, ErrV>) -> bool {
    match s {
        Ok(b) => r == Result::<bool, Error>::Ok(b),
        Err(e) => r matches Err(err) && err@ == e,
    }
}

/// One step of `+`, `-` or `*` on two constants.
fn bin_arith_step(op: Op, a: &Cst, b: &Cst) -> (r: Result<Cst, Error>)
    requires
        op == Op::Add || op == Op::Sub || op == Op::Mul,
        a.wf(),
        b.wf(),
    ensures
        eval_res_matches(r, bin_arith_v(op, a@, b@)),
{
    match (a, b) {
        (Cst::I(x), Cst::I(y)) => Ok(
            Cst::I(
                match op {
                    Op::Add => big_add(x, y),
                    Op::Sub => big_sub(x, y),
                    _ => big_mul(x, y),
                },
            ),
        ),
        (Cst::R(p), Cst::R(q)) => Ok(
            Cst::R(
                match op {
                    Op::Add => rat_add(p, q),
                    Op::Sub => rat_sub(p, q),
                    _ => rat_mul(p, q),
                },
            ),
        ),
        (_, _) => Err(
            Error::BinMismatch {
                op,
                lft_text: a.display_string(),
                lft_typ: a.typ(),
                rgt_text: b.display_string(),
                rgt_typ: b.typ(),
            },
        ),
    }
}

/// Unary negation of a constant.
fn neg_step(c: &Cst) -> (r: Result<Cst, Error>)
    requires
        c.wf(),
    ensures
        eval_res_matches(r, neg_v(c@)),
{
    match c {
        Cst::I(x) => Ok(Cst::I(big_neg(x))),
        Cst::R(p) => Ok(Cst::R(rat_neg(p))),
        Cst::B(_) => Err(
            Error::UnMismatch { op: Op::Sub, text: c.display_string(), found: c.typ() },
        ),
    }
}

/// One division step on two constants.
fn div_step(a: &Cst, b: &Cst) -> (r: Result<Cst, Error>)
    requires
        a.wf(),
        b.wf(),
        nonzero_v(b@),
    ensures
        eval_res_matches(r, div_v(a@, b@)),
{
    match (a, b) {
        (Cst::I(x), Cst::I(y)) => Ok(Cst::R(rat_new(x, y))),
        (Cst::R(p), Cst::R(q)) => Ok(Cst::R(rat_div(p, q))),
        (Cst::I(x), Cst::R(q)) => Ok(Cst::R(rat_div(&rat_from_int(x), q))),
        (Cst::R(p), Cst::I(y)) => Ok(Cst::R(rat_div(p, &rat_from_int(y)))),
        (_, _) => Err(
            Error::BinMismatch {
                op: Op::Div,
                lft_text: a.display_string(),
                lft_typ: a.typ(),
                rgt_text: b.display_string(),
                rgt_typ: b.typ(),
            },
        ),
    }
}

/// One integer-division step on two constants.
fn idiv_step(a: &Cst, b: &Cst) -> (r: Result<Cst, Error>)
    requires
        a.wf(),
        b.wf(),
        b@ != CstV::I(0),
    ensures
        eval_res_matches(r, idiv_v(a@, b@)),
{
    match (a, b) {
        (Cst::I(x), Cst::I(y)) => Ok(Cst::I(big_quot(x, y))),
        (_, _) => Err(
            Error::BinMismatch {
                op: Op::IDiv,
                lft_text: a.display_string(),
                lft_typ: a.typ(),
                rgt_text: b.display_string(),
                rgt_typ: b.typ(),
            },
        ),
    }
}

/// One modulo step on two constants.
fn mod_step(a: &Cst, b: &Cst) -> (r: Result<Cst, Error>)
    requires
        a.wf(),
        b.wf(),
        b@ != CstV::I(0),
    ensures
        eval_res_matches(r, mod_v(a@, b@)),
{
    match (a, b) {
        (Cst::I(x), Cst::I(y)) => Ok(Cst::I(big_rem(x, y))),
        (_, _) => Err(
            Error::BinMismatch {
                op: Op::Mod,
                lft_text: a.display_string(),
                lft_typ: a.typ(),
                rgt_text: b.display_string(),
                rgt_typ: b.typ(),
            },
        ),
    }
}

/// One relational comparison on two constants.
fn cmp_step(op: Op, a: &Cst, b: &Cst) -> (r: Result<bool, Error>)
    requires
        op == Op::Ge || op == Op::Le || op == Op::Gt || op == Op::Lt,
        a.wf(),
        b.wf(),
    ensures
        bool_res_matches(r, cmp_v(op, a@, b@)),
{
    match (a, b) {
        (Cst::I(x), Cst::I(y)) => Ok(
            match op {
                Op::Ge => big_le(y, x),
                Op::Le => big_le(x, y),
                Op::Gt => big_lt(y, x),
                _ => big_lt(x, y),
            },
        ),
        (Cst::R(p), Cst::R(q)) => Ok(
            match op {
                Op::Ge => rat_le(q, p),
                Op::Le => rat_le(p, q),
                Op::Gt => rat_lt(q, p),
                _ => rat_lt(p, q),
            },
        ),
        (_, _) => Err(
            Error::BinMismatch {
                op,
                lft_text: a.display_string(),
                lft_typ: a.typ(),
                rgt_text: b.display_string(),
                rgt_typ: b.typ(),
            },
        ),
    }
}

/// The fallible binary rule `f` folds from `acc` over `rest` to the
/// result `r`: each step relates by `f`'s postcondition, and the first
/// failing step is returned.
pub open spec fn folds_binop<F: Fn(Cst, Cst) -> Result<Cst, Error>>(
    f: F,
    acc: Cst,
    rest: Seq<Cst>,
    r: Result<Cst, Error>,
) -> bool
    decreases rest.len(),
{
    if rest.len() == 0 {
        r matches Ok(c) && c == acc
    } else {
        exists|step: Result<Cst, Error>|
            #[trigger] call_ensures(f, (acc, rest[0]), step) && match step {
                Ok(acc2) => folds_binop(f, acc2, rest.drop_first(), r),
                Err(e) => r matches Err(e2) && e2 == e,
            }
    }
}

/// An executable result agrees with its spec-level counterpart, with
/// nothing said about canonicity.
pub open spec fn res_matches(r: Result<Cst, Error>, s: Result<CstV, ErrV>) -> bool {
    match s {
        Ok(v) => r matches Ok(c) && c@ == v,
        Err(e) => r matches Err(err) && err@ == e,
    }
}

/// Folds `+`, `-` or `*` over the whole argument list, left to right.
fn fold_all(op: Op, args: &Vec<Cst>) -> (r: Result<Cst, Error>)
    requires
        op == Op::Add || op == Op::Sub || op == Op::Mul,
        args@.len() >= 1,
        forall|i: int| 0 <= i < args@.len() ==> cst_v_wf((#[trigger] args@[i])@),
    ensures
        eval_res_matches(r, fold_arith_v(op, views(args@)[0], views(args@), 1)),
{
    let ghost vs = views(args@);
    proof {
        assert(forall|i: int| 0 <= i < args@.len() ==> (#[trigger] args@[i])@ == vs[i]);
    }
    let n = args.len();
    let mut acc = args[0].duplicate();
    let mut i: usize = 1;
    while i < n
        invariant
            n == args@.len(),
            1 <= i <= n,
            op == Op::Add || op == Op::Sub || op == Op::Mul,
            vs == views(args@),
            vs.len() == n,
            forall|k: int| 0 <= k < args@.len() ==> (#[trigger] args@[k])@ == vs[k],
            forall|k: int| 0 <= k < vs.len() ==> cst_v_wf(#[trigger] vs[k]),
            cst_v_wf(acc@),
            fold_arith_v(op, vs[0], vs, 1) == fold_arith_v(op, acc@, vs, i as int),
        decreases n - i,
    {
        match bin_arith_step(op, &acc, &args[i]) {
            Ok(acc2) => {
                acc = acc2;
            },
            Err(e) => {
                return Err(e);
            },
        }
        i += 1;
    }
    Ok(acc)
}

/// Evaluates a relational chain pairwise, left to right.
fn chain_all(op: Op, args: &Vec<Cst>) -> (r: Result<Cst, Error>)
    requires
        op == Op::Ge || op == Op::Le || op == Op::Gt || op == Op::Lt,
        args@.len() >= 1,
        forall|i: int| 0 <= i < args@.len() ==> cst_v_wf((#[trigger] args@[i])@),
    ensures
        eval_res_matches(r, chain_v(op, views(args@), 1)),
{
    let ghost vs = views(args@);
    proof {
        assert(forall|i: int| 0 <= i < args@.len() ==> (#[trigger] args@[i])@ == vs[i]);
    }
    let n = args.len();
    let mut i: usize = 1;
    while i < n
        invariant
            n == args@.len(),
            1 <= i <= n,
            op == Op::Ge || op == Op::Le || op == Op::Gt || op == Op::Lt,
            vs == views(args@),
            vs.len() == n,
            forall|k: int| 0 <= k < args@.len() ==> (#[trigger] args@[k])@ == vs[k],
            forall|k: int| 0 <= k < vs.len() ==> cst_v_wf(#[trigger] vs[k]),
            chain_v(op, vs, 1) == chain_v(op, vs, i as int),
        decreases n - i,
    {
        match cmp_step(op, &args[i - 1], &args[i]) {
            Ok(true) => {},
            Ok(false) => {
                return Ok(Cst::bool(false));
            },
            Err(e) => {
                return Err(e);
            },
        }
        i += 1;
    }
    Ok(Cst::bool(true))
}

/// Compares the first argument against each later one.
fn eq_all(args: &Vec<Cst>) -> (r: Result<Cst, Error>)
    requires
        args@.len() >= 1,
        forall|i: int| 0 <= i < args@.len() ==> cst_v_wf((#[trigger] args@[i])@),
    ensures
        eval_res_matches(r, eq_v(views(args@), 1)),
{
    let ghost vs = views(args@);
    proof {
        assert(forall|i: int| 0 <= i < args@.len() ==> (#[trigger] args@[i])@ == vs[i]);
    }
    let n = args.len();
    let mut i: usize = 1;
    while i < n
        invariant
            n == args@.len(),
            1 <= i <= n,
            vs == views(args@),
            vs.len() == n,
            forall|k: int| 0 <= k < args@.len() ==> (#[trigger] args@[k])@ == vs[k],
            forall|k: int| 0 <= k < vs.len() ==> cst_v_wf(#[trigger] vs[k]),
            eq_v(vs, 1) == eq_v(vs, i as int),
        decreases n - i,
    {
        if !args[0].eq_cst(&args[i]) {
            return Ok(Cst::bool(false));
        }
        i += 1;
    }
    Ok(Cst::bool(true))
}

/// Conjunction over the whole argument list.
fn and_all(args: &Vec<Cst>) -> (r: Result<Cst, Error>)
    ensures
        eval_res_matches(r, and_v(views(args@), 0)),
{
    let ghost vs = views(args@);
    proof {
        assert(forall|i: int| 0 <= i < args@.len() ==> (#[trigger] args@[i])@ == vs[i]);
    }
    let n = args.len();
    let mut i: usize = 0;
    while i < n
        invariant
            n == args@.len(),
            0 <= i <= n,
            vs == views(args@),
            vs.len() == n,
            forall|k: int| 0 <= k < args@.len() ==> (#[trigger] args@[k])@ == vs[k],
            and_v(vs, 0) == and_v(vs, i as int),
        decreases n - i,
    {
        match args[i].as_bool() {
            Ok(true) => {},
            Ok(false) => {
                return Ok(Cst::bool(false));
            },
            Err(e) => {
                return Err(e);
            },
        }
        i += 1;
    }
    Ok(Cst::bool(true))
}

/// Disjunction over the whole argument list.
fn or_all(args: &Vec<Cst>) -> (r: Result<Cst, Error>)
    ensures
        eval_res_matches(r, or_v(views(args@), 0)),
{
    let ghost vs = views(args@);
    proof {
        assert(forall|i: int| 0 <= i < args@.len() ==> (#[trigger] args@[i])@ == vs[i]);
    }
    let n = args.len();
    let mut i: usize = 0;
    while i < n
        invariant
            n == args@.len(),
            0 <= i <= n,
            vs == views(args@),
            vs.len() == n,
            forall|k: int| 0 <= k < args@.len() ==> (#[trigger] args@[k])@ == vs[k],
            or_v(vs, 0) == or_v(vs, i as int),
        decreases n - i,
    {
        match args[i].as_bool() {
            Ok(false) => {},
            Ok(true) => {
                return Ok(Cst::bool(true));
            },
            Err(e) => {
                return Err(e);
            },
        }
        i += 1;
    }
    Ok(Cst::bool(false))
}

/// Law: over boolean arguments, an implication chain is false exactly
/// when every antecedent before the last argument is true and the last
/// argument is false — the right-associative reading
/// `a1 => (a2 => (... => an))`.
pub proof fn lemma_implies_closed_form(args: Seq<CstV>, i: int)
    requires
        0 <= i < args.len(),
        forall|j: int| 0 <= j < args.len() ==> (#[trigger] args[j]) is B,
    ensures
        implies_v(args, i) == Ok::<CstV, ErrV>(
            CstV::B(
                !((forall|j: int| i <= j < args.len() - 1 ==> args[j] == CstV::B(true))
                    && args.last() == CstV::B(false)),
            ),
        ),
    decreases args.len() - i,
{
    if i < args.len() - 1 {
        if args[i] == CstV::B(true) {
            lemma_implies_closed_form(args, i + 1);
        } else {
            assert(!(forall|j: int| i <= j < args.len() - 1 ==> args[j] == CstV::B(true)));
        }
    }
}

/// Law: a relational chain whose adjacent comparisons are all defined is
/// true exactly when every adjacent pair holds — `a >= b >= c` means
/// `a >= b` and `b >= c`, not a single pairwise check.
pub proof fn lemma_chain_is_pairwise_conjunction(op: Op, args: Seq<CstV>, i: int)
    requires
        1 <= i <= args.len(),
        forall|j: int| 1 <= j < args.len() ==> cmp_v(op, args[j - 1], #[trigger] args[j]) is Ok,
    ensures
        chain_v(op, args, i) == Ok::<CstV, ErrV>(
            CstV::B(
                forall|j: int|
                    i <= j < args.len() ==> cmp_v(op, args[j - 1], #[trigger] args[j])
                        == Ok::<bool, ErrV>(true),
            ),
        ),
    decreases args.len() - i,
{
    if i < args.len() {
        if cmp_v(op, args[i - 1], args[i]) == Ok::<bool, ErrV>(true) {
            lemma_chain_is_pairwise_conjunction(op, args, i + 1);
        } else {
            assert(!(forall|j: int|
                i <= j < args.len() ==> cmp_v(op, args[j - 1], #[trigger] args[j])
                    == Ok::<bool, ErrV>(true)));
        }
    }
}

/// Law: an equality application is true exactly when every later
/// argument equals the first, structurally; arguments of different
/// shapes are simply unequal, so the result is total and never an error.
pub proof fn lemma_eq_closed_form(args: Seq<CstV>, i: int)
    requires
        1 <= i <= args.len(),
    ensures
        eq_v(args, i) == Ok::<CstV, ErrV>(
            CstV::B(forall|j: int| i <= j < args.len() ==> cst_v_eq(args[0], #[trigger] args[j])),
        ),
    decreases args.len() - i,
{
    if i < args.len() {
        if cst_v_eq(args[0], args[i]) {
            lemma_eq_closed_form(args, i + 1);
        } else {
            assert(!(forall|j: int|
                i <= j < args.len() ==> cst_v_eq(args[0], #[trigger] args[j])));
        }
    }
}

/// Law: over boolean arguments a conjunction is true exactly when every
/// argument is true.
pub proof fn lemma_and_closed_form(args: Seq<CstV>, i: int)
    requires
        0 <= i <= args.len(),
        forall|j: int| 0 <= j < args.len() ==> (#[trigger] args[j]) is B,
    ensures
        and_v(args, i) == Ok::<CstV, ErrV>(
            CstV::B(forall|j: int| i <= j < args.len() ==> args[j] == CstV::B(true)),
        ),
    decreases args.len() - i,
{
    if i < args.len() {
        if args[i] == CstV::B(true) {
            lemma_and_closed_form(args, i + 1);
        } else {
            assert(!(forall|j: int| i <= j < args.len() ==> args[j] == CstV::B(true)));
        }
    }
}

/// Law: over boolean arguments a disjunction is true exactly when some
/// argument is true.
pub proof fn lemma_or_closed_form(args: Seq<CstV>, i: int)
    requires
        0 <= i <= args.len(),
        forall|j: int| 0 <= j < args.len() ==> (#[trigger] args[j]) is B,
    ensures
        or_v(args, i) == Ok::<CstV, ErrV>(
            CstV::B(exists|j: int| i <= j < args.len() && args[j] == CstV::B(true)),
        ),
    decreases args.len() - i,
{
    if i < args.len() {
        if args[i] == CstV::B(true) {
        } else {
            lemma_or_closed_form(args, i + 1);
        }
    }
}

/// An implication chain over canonical constants yields a canonical
/// constant.
proof fn lemma_implies_v_wf(args: Seq<CstV>, i: int)
    requires
        forall|k: int| 0 <= k < args.len() ==> cst_v_wf(#[trigger] args[k]),
        0 <= i < args.len(),
    ensures
        implies_v(args, i) matches Ok(v) ==> cst_v_wf(v),
    decreases args.len() - i,
{
    if i < args.len() - 1 && args[i] == CstV::B(true) {
        lemma_implies_v_wf(args, i + 1);
    }
}

impl Op {
    /// Ite evaluation: returns the branch the condition selects.
    pub fn eval_ite(cnd: Cst, thn: Cst, els: Cst) -> (r: Result<Cst, Error>)
        ensures
            match cnd@ {
                CstV::B(b) => r matches Ok(c) && c == (if b {
                    thn
                } else {
                    els
                }),
                _ => r matches Err(e) && e@ == not_bool_err(cnd@),
            },
    {
        match cnd.as_bool() {
            Ok(true) => Ok(thn),
            Ok(false) => Ok(els),
            Err(e) => Err(e),
        }
    }

    /// Implication evaluation: `true` as soon as an antecedent before the
    /// last argument is false, the last argument itself when every
    /// antecedent is true.
    pub fn eval_implies(first: Cst, tail: Vec<Cst>) -> (r: Result<Cst, Error>)
        ensures
            res_matches(r, implies_v(seq![first@] + views(tail@), 0)),
    {
        let ghost s = seq![first@] + views(tail@);
        proof {
            assert(forall|i: int| 0 <= i < tail@.len() ==> (#[trigger] tail@[i])@ == s[i + 1]);
        }
        let n = tail.len();
        if n == 0 {
            return Ok(first);
        }
        match first.as_bool() {
            Ok(true) => {},
            Ok(false) => {
                return Ok(Cst::bool(true));
            },
            Err(e) => {
                return Err(e);
            },
        }
        let mut i: usize = 0;
        while i < n - 1
            invariant
                n == tail@.len(),
                n >= 1,
                0 <= i <= n - 1,
                s == seq![first@] + views(tail@),
                s.len() == n + 1,
                forall|k: int| 0 <= k < tail@.len() ==> (#[trigger] tail@[k])@ == s[k + 1],
                implies_v(s, 0) == implies_v(s, i + 1),
            decreases n - i,
        {
            match tail[i].as_bool() {
                Ok(true) => {},
                Ok(false) => {
                    return Ok(Cst::bool(true));
                },
                Err(e) => {
                    return Err(e);
                },
            }
            i += 1;
        }
        let mut tail = tail;
        let last = tail.pop().unwrap();
        Ok(last)
    }

    /// Arithmetic operator application: folds a fallible binary rule over
    /// `fst`, `snd` and the tail, left to right, stopping at the first
    /// failure.
    pub fn eval_nary_binop<F: Fn(Cst, Cst) -> Result<Cst, Error>>(
        binop: F,
        fst: Cst,
        snd: Cst,
        tail: Vec<Cst>,
    ) -> (r: Result<Cst, Error>)
        requires
            forall|x: Cst, y: Cst| #[trigger] call_requires(binop, (x, y)),
        ensures
            folds_binop(binop, fst, seq![snd] + tail@, r),
    {
        let ghost all = seq![snd] + tail@;
        let mut acc = match binop(fst, snd) {
            Ok(c) => c,
            Err(e) => {
                proof {
                    assert(all[0] == snd);
                    assert(all.drop_first() =~= tail@);
                }
                return Err(e);
            },
        };
        proof {
            assert(all[0] == snd);
            assert(all.drop_first() =~= tail@);
        }
        let mut rest = tail;
        while rest.len() > 0
            invariant
                forall|x: Cst, y: Cst| #[trigger] call_requires(binop, (x, y)),
                forall|rr: Result<Cst, Error>|
                    folds_binop(binop, acc, rest@, rr) ==> #[trigger] folds_binop(
                        binop,
                        fst,
                        seq![snd] + tail@,
                        rr,
                    ),
            decreases rest.len(),
        {
            let ghost prev = rest@;
            let ghost prev_acc = acc;
            let x = rest.remove(0);
            match binop(acc, x) {
                Ok(acc2) => {
                    proof {
                        assert(prev[0] == x);
                        assert(prev.drop_first() =~= rest@);
                        assert forall|rr: Result<Cst, Error>|
                            folds_binop(binop, acc2, rest@, rr) implies #[trigger] folds_binop(
                            binop,
                            fst,
                            seq![snd] + tail@,
                            rr,
                        ) by {
                            assert(call_ensures(binop, (prev_acc, x), Ok(acc2)));
                            assert(folds_binop(binop, prev_acc, prev, rr));
                        };
                    }
                    acc = acc2;
                },
                Err(e) => {
                    proof {
                        assert(prev[0] == x);
                        assert(call_ensures(binop, (prev_acc, x), Err(e)));
                        assert(folds_binop(binop, prev_acc, prev, Err::<Cst, Error>(e)));
                    }
                    return Err(e);
                },
            }
        }
        Ok(acc)
    }

    /// Applies the operator to a vector of constants.
    ///
    /// Evaluation runs after type-checking, so only arity is re-checked
    /// here; a shape mismatch surfaces as a value error.
    pub fn eval(self, args: Vec<Cst>) -> (r: Result<Cst, Error>)
        requires
            eval_pre(self, views(args@)),
        ensures
            eval_res_matches(r, spec_eval(self, views(args@))),
    {
        let ghost vs = views(args@);
        proof {
            assert(forall|i: int| 0 <= i < args@.len() ==> (#[trigger] args@[i])@ == vs[i]);
        }
        let n = args.len();
        if n < self.min_arity() {
            return Err(Error::TooFewArgs { op: self, found: n });
        }
        if let Some(max) = self.max_arity() {
            if n > max {
                return Err(Error::TooManyArgs { op: self, found: n });
            }
        }
        match self {
            Op::Ite => match args[0].as_bool() {
                Ok(true) => Ok(args[1].duplicate()),
                Ok(false) => Ok(args[2].duplicate()),
                Err(e) => Err(e),
            },
            Op::Implies => {
                let mut rest = args;
                let first = rest.remove(0);
                proof {
                    assert(seq![first@] + views(rest@) =~= vs);
                    lemma_implies_v_wf(vs, 0);
                }
                Self::eval_implies(first, rest)
            },
            Op::Add => fold_all(Op::Add, &args),
            Op::Sub => if n == 1 {
                neg_step(&args[0])
            } else {
                fold_all(Op::Sub, &args)
            },
            Op::Mul => fold_all(Op::Mul, &args),
            Op::Div => div_step(&args[0], &args[1]),
            Op::IDiv => idiv_step(&args[0], &args[1]),
            Op::Mod => mod_step(&args[0], &args[1]),
            Op::Ge | Op::Le | Op::Gt | Op::Lt => chain_all(self, &args),
            Op::Eq => eq_all(&args),
            Op::Not => match args[0].as_bool() {
                Ok(b) => Ok(Cst::bool(!b)),
                Err(e) => Err(e),
            },
            Op::And => and_all(&args),
            Op::Or => or_all(&args),
        }
    }
}

} // verus!
