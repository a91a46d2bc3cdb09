use mikino_expr::{Cst, Error, Expr, HasTyp, Op, PExpr, SExpr, SVar, Typ, Var};
use num::BigInt;

fn icst(x: i64) -> Cst {
    Cst::int_cst(BigInt::from(x))
}

fn iexpr(x: i64) -> Expr {
    PExpr::new_cst(icst(x))
}

fn var(id: &str, t: Typ) -> Expr {
    PExpr::new_var(Var::new(id, t))
}

#[test]
fn leaf_constructors_and_shape_tests() {
    let v = var("v_1", Typ::Bool);
    assert!(v.is_var());
    assert!(!v.is_cst());
    assert!(!v.is_app());
    let c = iexpr(3);
    assert!(c.is_cst());
    assert!(!c.is_var());
    let app = PExpr::new_op(Op::Add, vec![iexpr(1), iexpr(2)]).unwrap();
    assert!(app.is_app());
    assert!(!app.is_cst());
}

#[test]
fn var_accessors() {
    let v = Var::new("v_1", Typ::Bool);
    assert_eq!(v.id(), "v_1");
    assert_eq!(v.typ(), Typ::Bool);
    let sv = SVar::new_next(v.duplicate());
    assert!(sv.is_next());
    assert_eq!(sv.id(), "v_1");
    assert_eq!(sv.typ(), Typ::Bool);
    let sv = SVar::new_curr(v);
    assert!(!sv.is_next());
    let sv2 = SVar::new(Var::new("x", Typ::Int), true);
    assert!(sv2.is_next());
}

#[test]
fn new_op_rejects_what_type_check_rejects() {
    let e = PExpr::<Var>::new_op(Op::Not, vec![]).unwrap_err();
    assert!(matches!(e, Error::TooFewArgs { op: Op::Not, found: 0 }));
    let e = PExpr::<Var>::new_op(Op::Not, vec![iexpr(1)]).unwrap_err();
    assert!(matches!(e, Error::ExpectedBool { op: Op::Not }));
    let ok = PExpr::<Var>::new_op(Op::Not, vec![PExpr::new_cst(Cst::bool(true))]).unwrap();
    assert_eq!(ok.typ(), Typ::Bool);
}

#[test]
fn derived_type_recomputes_structurally() {
    let add = PExpr::new_op(Op::Add, vec![iexpr(1), var("n", Typ::Int)]).unwrap();
    assert_eq!(add.typ(), Typ::Int);
    let cmp = PExpr::new_op(Op::Ge, vec![add, iexpr(0)]).unwrap();
    assert_eq!(cmp.typ(), Typ::Bool);
    let ite = PExpr::new_op(
        Op::Ite,
        vec![cmp, iexpr(1), iexpr(2)],
    )
    .unwrap();
    assert_eq!(ite.typ(), Typ::Int);
    let div = PExpr::new_op(Op::Div, vec![iexpr(1), iexpr(2)]).unwrap();
    assert_eq!(div.typ(), Typ::Rat);
}

#[test]
fn simplification_preserves_type() {
    // the type computed before the single-level simplification pass is
    // the type of the node the constructor hands out
    let cases: Vec<(Op, Vec<Expr>)> = vec![
        (Op::Sub, vec![iexpr(5)]),
        (Op::Add, vec![iexpr(5)]),
        (Op::And, vec![PExpr::new_cst(Cst::bool(true))]),
        (Op::Or, vec![PExpr::new_cst(Cst::bool(false))]),
        (Op::Add, vec![iexpr(1), iexpr(2)]),
        (Op::Ge, vec![iexpr(1), iexpr(2)]),
    ];
    for (op, args) in cases {
        let before = op.type_check(&args).unwrap();
        let after = PExpr::new_op(op, args).unwrap().typ();
        assert_eq!(before, after);
    }
}

#[test]
fn singleton_add_and_or_collapse() {
    let e = PExpr::new_op(Op::Add, vec![var("n", Typ::Int)]).unwrap();
    assert!(e.is_var());
    let e = PExpr::<Var>::new_op(Op::And, vec![PExpr::new_cst(Cst::bool(true))]).unwrap();
    assert!(e.is_cst());
    let e = PExpr::new_op(Op::Or, vec![var("b", Typ::Bool)]).unwrap();
    assert!(e.is_var());
}

#[test]
fn constant_unary_sub_folds() {
    let e = PExpr::<Var>::new_op(Op::Sub, vec![iexpr(5)]).unwrap();
    assert!(e.is_cst());
    assert_eq!(e.display_string(), "(- 5)");
    // a variable under unary sub stays an application
    let e = PExpr::new_op(Op::Sub, vec![var("n", Typ::Int)]).unwrap();
    assert!(e.is_app());
    assert_eq!(e.display_string(), "(- n)");
}

#[test]
fn display_of_applications() {
    let v1 = var("v_1", Typ::Int);
    let ge = PExpr::new_op(Op::Ge, vec![v1, iexpr(0)]).unwrap();
    let v2 = var("v_2", Typ::Bool);
    let and = PExpr::new_op(Op::And, vec![ge, v2]).unwrap();
    assert_eq!(and.display_string(), "(and (>= v_1 0) v_2)");
}

#[test]
fn smt2_encoding_with_steps() {
    let cnt = Var::new("cnt", Typ::Int);
    let curr: SExpr = PExpr::new_var(SVar::new_curr(cnt.duplicate()));
    let next: SExpr = PExpr::new_var(SVar::new_next(cnt));
    let one: SExpr = PExpr::new_cst(icst(1));
    let sum = PExpr::new_op(Op::Add, vec![curr, one]).unwrap();
    let trans = PExpr::new_op(Op::Eq, vec![next, sum]).unwrap();
    assert_eq!(trans.to_smt2_string(0), "(= cnt@1 (+ cnt@0 1))");
    assert_eq!(trans.to_smt2_string(7), "(= cnt@8 (+ cnt@7 1))");
    // with no step context, current/next default to @0/@1
    assert_eq!(trans.to_smt2_string_plain(), "(= cnt@1 (+ cnt@0 1))");
}

#[test]
fn smt2_encoding_stateless_variables() {
    let v1 = var("v_1", Typ::Int);
    let ge = PExpr::new_op(Op::Ge, vec![v1, iexpr(0)]).unwrap();
    let v2 = var("v_2", Typ::Bool);
    let and = PExpr::new_op(Op::And, vec![ge, v2]).unwrap();
    // a stateless variable is step-suffixed under a step context
    assert_eq!(and.to_smt2_string(0), "(and (>= v_1@0 0) v_2@0)");
    // and bare without one
    assert_eq!(and.to_smt2_string_plain(), "(and (>= v_1 0) v_2)");
}

#[test]
fn smt2_encoding_uses_wire_symbols() {
    let idiv = PExpr::<Var>::new_op(Op::IDiv, vec![iexpr(7), iexpr(2)]).unwrap();
    assert_eq!(idiv.to_smt2_string_plain(), "(div 7 2)");
    let md = PExpr::<Var>::new_op(Op::Mod, vec![iexpr(7), iexpr(2)]).unwrap();
    assert_eq!(md.to_smt2_string_plain(), "(mod 7 2)");
    assert_eq!(md.display_string(), "(% 7 2)");
    let neg = PExpr::new_op(Op::Not, vec![var("b", Typ::Bool)]).unwrap();
    assert_eq!(neg.to_smt2_string_plain(), "(not b)");
    assert_eq!(neg.display_string(), "(not b)");
}

#[test]
fn negated_writes_not_around_referent() {
    let v1 = var("v_1", Typ::Int);
    let ge = PExpr::new_op(Op::Ge, vec![v1, iexpr(0)]).unwrap();
    let v2 = var("v_2", Typ::Bool);
    let and = PExpr::new_op(Op::And, vec![ge, v2]).unwrap();
    let not_and = and.negated();
    assert_eq!(not_and.to_smt2_string(0), "(not (and (>= v_1@0 0) v_2@0))");
}

#[test]
fn clean_repr_trims_and_collapses() {
    assert_eq!(Expr::clean_repr("  a  +\t b \n"), "a + b");
    assert_eq!(Expr::clean_repr("already clean"), "already clean");
    assert_eq!(Expr::clean_repr("   "), "");
    assert_eq!(Expr::clean_repr(""), "");
    assert_eq!(Expr::clean_repr("x"), "x");
}

#[test]
fn fold_evaluates_ground_formula() {
    // fold can run the evaluator bottom-up over a tree
    let e = PExpr::new_op(
        Op::Ge,
        vec![
            PExpr::<Var>::new_op(Op::Add, vec![iexpr(2), iexpr(3)]).unwrap(),
            iexpr(4),
        ],
    )
    .unwrap();
    let got = e.fold(
        |_v: &Var| -> Result<Cst, Error> { panic!("no variables here") },
        |c: &Cst| -> Result<Cst, Error> { Ok(c.duplicate()) },
        |op: Op, accs: Vec<Result<Cst, Error>>| -> Result<Cst, Error> {
            let mut args = Vec::new();
            for a in accs {
                args.push(a?);
            }
            op.eval(args)
        },
    );
    assert_eq!(got.unwrap().display_string(), "true");
}

#[test]
fn fold_counts_nodes() {
    let e = PExpr::new_op(
        Op::And,
        vec![
            PExpr::new_op(Op::Ge, vec![var("x", Typ::Int), iexpr(0)]).unwrap(),
            var("b", Typ::Bool),
        ],
    )
    .unwrap();
    let count = e.fold(
        |_v: &Var| 1u64,
        |_c: &Cst| 1u64,
        |_op: Op, accs: Vec<u64>| 1 + accs.iter().sum::<u64>(),
    );
    assert_eq!(count, 5);
}

#[test]
fn fold_handles_very_deep_chains() {
    // a right-deep addition chain far beyond any call-stack depth
    let depth = 100_000usize;
    let mut e: Expr = iexpr(1);
    for _ in 0..depth {
        e = PExpr::App { op: Op::Add, args: vec![iexpr(1), e] };
    }
    let count = e.fold(
        |_v: &Var| 1u64,
        |_c: &Cst| 1u64,
        |_op: Op, accs: Vec<u64>| 1 + accs.iter().sum::<u64>(),
    );
    assert_eq!(count, (2 * depth + 1) as u64);
    // tear the tree down iteratively as well: a plain drop would recurse
    let mut worklist = vec![e];
    while let Some(node) = worklist.pop() {
        if let PExpr::App { args, .. } = node {
            worklist.extend(args);
        }
    }
}
