use mikino_expr::{Cst, Error, Op, Typ};
use num::BigInt;
use num::BigRational;

fn i(x: i64) -> Cst {
    Cst::int_cst(BigInt::from(x))
}

fn r(n: i64, d: i64) -> Cst {
    Cst::rat(BigRational::new(BigInt::from(n), BigInt::from(d)))
}

fn b(x: bool) -> Cst {
    Cst::bool(x)
}

fn ev(op: Op, args: Vec<Cst>) -> Result<Cst, Error> {
    op.eval(args)
}

fn show(res: Result<Cst, Error>) -> String {
    res.unwrap().display_string()
}

#[test]
fn add_sub_mul_exact() {
    assert_eq!(show(ev(Op::Add, vec![i(2), i(3)])), "5");
    assert_eq!(show(ev(Op::Add, vec![i(1), i(2), i(3), i(4)])), "10");
    assert_eq!(show(ev(Op::Sub, vec![i(2), i(3)])), "(- 1)");
    assert_eq!(show(ev(Op::Sub, vec![i(10), i(1), i(2)])), "7");
    assert_eq!(show(ev(Op::Mul, vec![i(6), i(7)])), "42");
    // far beyond machine precision
    assert_eq!(
        show(ev(
            Op::Mul,
            vec![i(1_000_000_000_000_000_000), i(1_000_000_000_000_000_000)]
        )),
        "1000000000000000000000000000000000000"
    );
}

#[test]
fn degenerate_one_argument_folds() {
    // a one-argument addition or multiplication folds to its operand
    assert_eq!(show(ev(Op::Add, vec![i(9)])), "9");
    assert_eq!(show(ev(Op::Mul, vec![r(2, 3)])), "(/ 2 3)");
}

#[test]
fn sub_unary_negates() {
    assert_eq!(show(ev(Op::Sub, vec![i(5)])), "(- 5)");
    assert_eq!(show(ev(Op::Sub, vec![i(-5)])), "5");
    assert_eq!(show(ev(Op::Sub, vec![r(1, 2)])), "(- (/ 1 2))");
    let e = ev(Op::Sub, vec![b(true)]).unwrap_err();
    match e {
        Error::UnMismatch { op, text, found } => {
            assert_eq!(op, Op::Sub);
            assert_eq!(text, "true");
            assert_eq!(found, Typ::Bool);
        },
        other => panic!("unexpected error: {:?}", other),
    }
}

#[test]
fn rational_arithmetic_reduces() {
    assert_eq!(show(ev(Op::Add, vec![r(1, 2), r(1, 3)])), "(/ 5 6)");
    assert_eq!(show(ev(Op::Add, vec![r(1, 4), r(1, 4)])), "(/ 1 2)");
    assert_eq!(show(ev(Op::Sub, vec![r(1, 2), r(1, 2)])), "(/ 0 1)");
    assert_eq!(show(ev(Op::Mul, vec![r(2, 3), r(3, 4)])), "(/ 1 2)");
}

#[test]
fn division_semantics() {
    // integer / integer yields an exact rational, never truncated
    assert_eq!(show(ev(Op::Div, vec![i(1), i(2)])), "(/ 1 2)");
    assert!(ev(Op::Div, vec![i(1), i(2)]).unwrap().eq_cst(&r(1, 2)));
    // integer division truncates
    assert_eq!(show(ev(Op::IDiv, vec![i(7), i(2)])), "3");
    assert!(ev(Op::IDiv, vec![i(7), i(2)]).unwrap().eq_cst(&i(3)));
    // modulo
    assert_eq!(show(ev(Op::Mod, vec![i(7), i(2)])), "1");
    assert!(ev(Op::Mod, vec![i(7), i(2)]).unwrap().eq_cst(&i(1)));
}

#[test]
fn division_mixed_and_rational() {
    assert_eq!(show(ev(Op::Div, vec![r(1, 2), r(1, 3)])), "(/ 3 2)");
    assert_eq!(show(ev(Op::Div, vec![i(3), r(1, 2)])), "(/ 6 1)");
    assert_eq!(show(ev(Op::Div, vec![r(1, 2), i(3)])), "(/ 1 6)");
    assert_eq!(show(ev(Op::Div, vec![i(-1), i(2)])), "(- (/ 1 2))");
}

#[test]
fn truncating_division_signs() {
    assert_eq!(show(ev(Op::IDiv, vec![i(-7), i(2)])), "(- 3)");
    assert_eq!(show(ev(Op::IDiv, vec![i(7), i(-2)])), "(- 3)");
    assert_eq!(show(ev(Op::Mod, vec![i(-7), i(2)])), "(- 1)");
    assert_eq!(show(ev(Op::Mod, vec![i(7), i(-2)])), "1");
}

#[test]
fn chained_relations() {
    // 5 >= 3 >= 3 >= 1 holds
    assert_eq!(show(ev(Op::Ge, vec![i(5), i(3), i(3), i(1)])), "true");
    // chain breaks at 3 >= 4
    assert_eq!(show(ev(Op::Ge, vec![i(5), i(3), i(4), i(1)])), "false");
    assert_eq!(show(ev(Op::Lt, vec![i(1), i(2), i(3)])), "true");
    assert_eq!(show(ev(Op::Gt, vec![i(3), i(2), i(2)])), "false");
    assert_eq!(show(ev(Op::Le, vec![r(1, 3), r(1, 2)])), "true");
    assert_eq!(show(ev(Op::Lt, vec![r(1, 2), r(1, 3)])), "false");
}

#[test]
fn heterogeneous_equality_is_false_not_error() {
    assert_eq!(show(ev(Op::Eq, vec![b(true), i(1)])), "false");
    assert_eq!(show(ev(Op::Eq, vec![i(1), r(1, 1)])), "false");
    assert_eq!(show(ev(Op::Eq, vec![i(2), i(2), i(2)])), "true");
    assert_eq!(show(ev(Op::Eq, vec![i(2), i(2), i(3)])), "false");
    assert_eq!(show(ev(Op::Eq, vec![r(2, 4), r(1, 2)])), "true");
}

#[test]
fn implication_table() {
    assert_eq!(show(ev(Op::Implies, vec![b(true), b(false)])), "false");
    assert_eq!(show(ev(Op::Implies, vec![b(false), b(true)])), "true");
    assert_eq!(show(ev(Op::Implies, vec![b(false), b(false)])), "true");
    assert_eq!(show(ev(Op::Implies, vec![b(true), b(true)])), "true");
}

#[test]
fn implication_longer_chains() {
    // a1 => (a2 => a3): true unless every antecedent holds and the last fails
    assert_eq!(show(ev(Op::Implies, vec![b(true), b(true), b(false)])), "false");
    assert_eq!(show(ev(Op::Implies, vec![b(true), b(false), b(false)])), "true");
    assert_eq!(show(ev(Op::Implies, vec![b(false), b(true), b(false)])), "true");
    assert_eq!(show(ev(Op::Implies, vec![b(true), b(true), b(true)])), "true");
}

#[test]
fn and_or_not() {
    assert_eq!(show(ev(Op::And, vec![b(true), b(true)])), "true");
    assert_eq!(show(ev(Op::And, vec![b(true), b(false), b(true)])), "false");
    assert_eq!(show(ev(Op::Or, vec![b(false), b(false)])), "false");
    assert_eq!(show(ev(Op::Or, vec![b(false), b(true)])), "true");
    assert_eq!(show(ev(Op::Not, vec![b(true)])), "false");
    assert_eq!(show(ev(Op::Not, vec![b(false)])), "true");
    // short-circuit: the false hides the ill-shaped tail
    assert_eq!(show(ev(Op::And, vec![b(false), i(1)])), "false");
    assert_eq!(show(ev(Op::Or, vec![b(true), i(1)])), "true");
}

#[test]
fn ite_selects_branch() {
    assert_eq!(show(ev(Op::Ite, vec![b(true), i(1), i(2)])), "1");
    assert_eq!(show(ev(Op::Ite, vec![b(false), i(1), i(2)])), "2");
    let e = ev(Op::Ite, vec![i(0), i(1), i(2)]).unwrap_err();
    assert!(matches!(
        e,
        Error::CstMismatch { expected: Typ::Bool, found: Typ::Int, .. }
    ));
}

#[test]
fn eval_rechecks_arity() {
    let e = ev(Op::Implies, vec![b(true)]).unwrap_err();
    assert!(matches!(e, Error::TooFewArgs { op: Op::Implies, found: 1 }));
    let e = ev(Op::Div, vec![i(1), i(2), i(3)]).unwrap_err();
    assert!(matches!(e, Error::TooManyArgs { op: Op::Div, found: 3 }));
}

#[test]
fn eval_value_errors() {
    let e = ev(Op::Add, vec![i(1), b(true)]).unwrap_err();
    match e {
        Error::BinMismatch { op, lft_text, lft_typ, rgt_text, rgt_typ } => {
            assert_eq!(op, Op::Add);
            assert_eq!(lft_text, "1");
            assert_eq!(lft_typ, Typ::Int);
            assert_eq!(rgt_text, "true");
            assert_eq!(rgt_typ, Typ::Bool);
        },
        other => panic!("unexpected error: {:?}", other),
    }
    // idiv and mod error on non-integer shapes
    let e = ev(Op::IDiv, vec![r(1, 2), r(1, 2)]).unwrap_err();
    assert!(matches!(e, Error::BinMismatch { op: Op::IDiv, .. }));
    let e = ev(Op::Mod, vec![r(1, 2), r(1, 2)]).unwrap_err();
    assert!(matches!(e, Error::BinMismatch { op: Op::Mod, .. }));
    // a non-boolean inside a conjunction
    let e = ev(Op::And, vec![b(true), i(3)]).unwrap_err();
    assert!(matches!(
        e,
        Error::CstMismatch { expected: Typ::Bool, found: Typ::Int, .. }
    ));
}

#[test]
fn eval_ite_entry_point() {
    let got = Op::eval_ite(b(true), i(1), i(2)).unwrap();
    assert!(got.eq_cst(&i(1)));
    let got = Op::eval_ite(b(false), i(1), i(2)).unwrap();
    assert!(got.eq_cst(&i(2)));
    assert!(Op::eval_ite(i(0), i(1), i(2)).is_err());
}

#[test]
fn eval_implies_entry_point() {
    let got = Op::eval_implies(b(true), vec![b(false)]).unwrap();
    assert_eq!(got.display_string(), "false");
    let got = Op::eval_implies(b(false), vec![b(false)]).unwrap();
    assert_eq!(got.display_string(), "true");
    // with no tail, the first argument is the whole chain
    let got = Op::eval_implies(b(false), vec![]).unwrap();
    assert_eq!(got.display_string(), "false");
}

#[test]
fn eval_nary_binop_folds_left() {
    let add = |a: Cst, b2: Cst| -> Result<Cst, Error> { Op::Add.eval(vec![a, b2]) };
    let got = Op::eval_nary_binop(add, i(1), i(2), vec![i(3), i(4)]).unwrap();
    assert!(got.eq_cst(&i(10)));
    let got = Op::eval_nary_binop(add, i(1), i(2), vec![]).unwrap();
    assert!(got.eq_cst(&i(3)));
    let failing = |a: Cst, b2: Cst| -> Result<Cst, Error> { Op::Add.eval(vec![a, b2]) };
    assert!(Op::eval_nary_binop(failing, i(1), b(true), vec![]).is_err());
}
