use mikino_expr::{Cst, Error, Op, Precedence, Typ};
use std::cmp::Ordering;

#[test]
fn of_str_ascii() {
    assert_eq!(Op::of_str("+"), Some(Op::Add));
    assert_eq!(Op::of_str("-"), Some(Op::Sub));
    assert_eq!(Op::of_str("*"), Some(Op::Mul));
    assert_eq!(Op::of_str("/"), Some(Op::Div));
    assert_eq!(Op::of_str("div"), Some(Op::IDiv));
    assert_eq!(Op::of_str("mod"), Some(Op::Mod));
    assert_eq!(Op::of_str("ite"), Some(Op::Ite));
    assert_eq!(Op::of_str("=>"), Some(Op::Implies));
    assert_eq!(Op::of_str("implies"), Some(Op::Implies));
    assert_eq!(Op::of_str(">="), Some(Op::Ge));
    assert_eq!(Op::of_str("<="), Some(Op::Le));
    assert_eq!(Op::of_str(">"), Some(Op::Gt));
    assert_eq!(Op::of_str("<"), Some(Op::Lt));
    assert_eq!(Op::of_str("="), Some(Op::Eq));
    assert_eq!(Op::of_str("not"), Some(Op::Not));
    assert_eq!(Op::of_str("!"), Some(Op::Not));
    assert_eq!(Op::of_str("and"), Some(Op::And));
    assert_eq!(Op::of_str("&&"), Some(Op::And));
    assert_eq!(Op::of_str("or"), Some(Op::Or));
    assert_eq!(Op::of_str("||"), Some(Op::Or));
}

#[test]
fn of_str_unicode_and_unknown() {
    assert_eq!(Op::of_str("\u{21d2}"), Some(Op::Implies));
    assert_eq!(Op::of_str("\u{2265}"), Some(Op::Ge));
    assert_eq!(Op::of_str("\u{2264}"), Some(Op::Le));
    assert_eq!(Op::of_str("\u{00ac}"), Some(Op::Not));
    assert_eq!(Op::of_str("\u{22c0}"), Some(Op::And));
    assert_eq!(Op::of_str("\u{22c1}"), Some(Op::Or));
    assert_eq!(Op::of_str("add"), None);
    assert_eq!(Op::of_str(""), None);
    assert_eq!(Op::of_str("iteq"), None);
}

#[test]
fn arity_bounds() {
    assert_eq!(Op::Not.min_arity(), 1);
    assert_eq!(Op::Not.max_arity(), Some(1));
    assert_eq!(Op::Add.min_arity(), 1);
    assert_eq!(Op::Add.max_arity(), None);
    assert_eq!(Op::Mul.min_arity(), 1);
    assert_eq!(Op::Mul.max_arity(), None);
    assert_eq!(Op::Mod.min_arity(), 2);
    assert_eq!(Op::Ite.min_arity(), 3);
    assert_eq!(Op::Ite.max_arity(), Some(3));
    assert_eq!(Op::Div.min_arity(), 2);
    assert_eq!(Op::Div.max_arity(), Some(2));
    assert_eq!(Op::Implies.min_arity(), 2);
    assert_eq!(Op::Implies.max_arity(), None);
}

#[test]
fn associativity_and_relations() {
    assert!(Op::Add.is_left_associative());
    assert!(Op::Eq.is_left_associative());
    assert!(!Op::Ite.is_left_associative());
    assert!(!Op::Div.is_left_associative());
    assert!(Op::Ge.is_arith_relation());
    assert!(Op::Lt.is_arith_relation());
    assert!(!Op::Eq.is_arith_relation());
    assert!(!Op::And.is_arith_relation());
}

#[test]
fn symbol_tables() {
    assert_eq!(Op::Ge.smt_str(), "\u{2265}");
    assert_eq!(Op::Ge.display_str(), ">=");
    assert_eq!(Op::Ge.smt2_str(), ">=");
    assert_eq!(Op::Not.smt_str(), "\u{00ac}");
    assert_eq!(Op::Not.smt2_str(), "not");
    assert_eq!(Op::IDiv.display_str(), "div");
    assert_eq!(Op::IDiv.smt2_str(), "div");
    assert_eq!(Op::Mod.display_str(), "%");
    assert_eq!(Op::Mod.smt2_str(), "mod");
    assert_eq!(Op::Ite.hsmt_str(), &["if", "then", "else"][..]);
    assert_eq!(Op::And.hsmt_str(), &["\u{22c0}"][..]);
}

#[test]
fn precedence_order() {
    assert_eq!(
        Precedence::max().partial_cmp(&Precedence::max()),
        Some(Ordering::Equal)
    );
    assert_eq!(
        Precedence::max().partial_cmp(&Precedence::new(7)),
        Some(Ordering::Greater)
    );
    assert_eq!(
        Precedence::new(7).partial_cmp(&Precedence::max()),
        Some(Ordering::Less)
    );
    assert_eq!(
        Precedence::new(3).partial_cmp(&Precedence::new(7)),
        Some(Ordering::Less)
    );
    assert_eq!(
        Precedence::new(7).partial_cmp(&Precedence::new(7)),
        Some(Ordering::Equal)
    );
}

fn typs(cs: &[Cst]) -> Vec<Cst> {
    let mut v = Vec::new();
    for c in cs {
        v.push(c.duplicate());
    }
    v
}

#[test]
fn type_check_not_arity_boundary() {
    // 0 arguments: too few
    let none: Vec<Cst> = Vec::new();
    let e = Op::Not.type_check(&none).unwrap_err();
    assert!(matches!(e, Error::TooFewArgs { op: Op::Not, found: 0 }));
    // 2 arguments: too many
    let two = typs(&[Cst::bool(true), Cst::bool(false)]);
    let e = Op::Not.type_check(&two).unwrap_err();
    assert!(matches!(e, Error::TooManyArgs { op: Op::Not, found: 2 }));
    // exactly 1 boolean argument: succeeds with Bool
    let one = typs(&[Cst::bool(true)]);
    assert_eq!(Op::Not.type_check(&one).unwrap(), Typ::Bool);
}

#[test]
fn type_check_ite() {
    let i = |x: i64| Cst::int_cst(num::BigInt::from(x));
    let ok = typs(&[Cst::bool(true), i(1), i(2)]);
    assert_eq!(Op::Ite.type_check(&ok).unwrap(), Typ::Int);
    let bad_cond = typs(&[i(0), i(1), i(2)]);
    assert!(matches!(
        Op::Ite.type_check(&bad_cond).unwrap_err(),
        Error::IteCondNotBool { found: Typ::Int }
    ));
    let bad_branches = typs(&[Cst::bool(true), i(1), Cst::bool(false)]);
    assert!(matches!(
        Op::Ite.type_check(&bad_branches).unwrap_err(),
        Error::IteBranchMismatch { thn: Typ::Int, els: Typ::Bool }
    ));
}

#[test]
fn type_check_bool_and_arith_groups() {
    let i = |x: i64| Cst::int_cst(num::BigInt::from(x));
    let r = |n: i64, d: i64| Cst::rat(num::BigRational::new(n.into(), d.into()));
    // non-boolean operand under a logical operator
    let e = Op::And.type_check(&typs(&[Cst::bool(true), i(1)])).unwrap_err();
    assert!(matches!(e, Error::ExpectedBool { op: Op::And }));
    // non-arithmetic first operand
    let e = Op::Add.type_check(&typs(&[Cst::bool(true), i(1)])).unwrap_err();
    assert!(matches!(e, Error::ExpectedArith { op: Op::Add, found: Typ::Bool }));
    // mixed arithmetic types
    let e = Op::Add.type_check(&typs(&[i(1), r(1, 2)])).unwrap_err();
    assert!(matches!(
        e,
        Error::TypMismatch { op: Op::Add, expected: Typ::Int, found: Typ::Rat }
    ));
    // integer-only operators on rationals
    let e = Op::IDiv.type_check(&typs(&[r(1, 2), r(1, 2)])).unwrap_err();
    assert!(matches!(e, Error::ExpectedInt { op: Op::IDiv, found: Typ::Rat }));
    // result types
    assert_eq!(Op::Add.type_check(&typs(&[i(1), i(2)])).unwrap(), Typ::Int);
    assert_eq!(Op::Mul.type_check(&typs(&[r(1, 2), r(1, 3)])).unwrap(), Typ::Rat);
    assert_eq!(Op::Mod.type_check(&typs(&[i(1), i(2)])).unwrap(), Typ::Int);
    assert_eq!(Op::Ge.type_check(&typs(&[i(1), i(2), i(3)])).unwrap(), Typ::Bool);
}

#[test]
fn type_check_div_mixes_arithmetic_types() {
    let i = |x: i64| Cst::int_cst(num::BigInt::from(x));
    let r = |n: i64, d: i64| Cst::rat(num::BigRational::new(n.into(), d.into()));
    assert_eq!(Op::Div.type_check(&typs(&[i(1), r(1, 2)])).unwrap(), Typ::Rat);
    assert_eq!(Op::Div.type_check(&typs(&[r(1, 2), i(3)])).unwrap(), Typ::Rat);
    assert_eq!(Op::Div.type_check(&typs(&[i(1), i(2)])).unwrap(), Typ::Rat);
    let e = Op::Div.type_check(&typs(&[i(1), Cst::bool(true)])).unwrap_err();
    assert!(matches!(e, Error::ExpectedArith { op: Op::Div, found: Typ::Bool }));
}

#[test]
fn type_check_eq_needs_identical_types() {
    let i = |x: i64| Cst::int_cst(num::BigInt::from(x));
    assert_eq!(
        Op::Eq.type_check(&typs(&[Cst::bool(true), Cst::bool(false)])).unwrap(),
        Typ::Bool
    );
    assert_eq!(Op::Eq.type_check(&typs(&[i(1), i(2), i(3)])).unwrap(), Typ::Bool);
    let e = Op::Eq.type_check(&typs(&[i(1), Cst::bool(true)])).unwrap_err();
    assert!(matches!(
        e,
        Error::TypMismatch { op: Op::Eq, expected: Typ::Int, found: Typ::Bool }
    ));
}
