use mikino_expr::{Cst, Error, HasTyp, Typ};
use num::BigInt;
use num::BigRational;

fn big(i: i64) -> BigInt {
    BigInt::from(i)
}

fn rat(n: i64, d: i64) -> BigRational {
    BigRational::new(big(n), big(d))
}

#[test]
fn typ_constructors() {
    assert_eq!(Typ::bool(), Typ::Bool);
    assert_eq!(Typ::int_typ(), Typ::Int);
    assert_eq!(Typ::rat(), Typ::Rat);
    assert!(!Typ::Bool.is_arith());
    assert!(Typ::Int.is_arith());
    assert!(Typ::Rat.is_arith());
}

#[test]
fn typ_strings() {
    assert_eq!(Typ::Bool.display_str(), "bool");
    assert_eq!(Typ::Int.display_str(), "int");
    assert_eq!(Typ::Rat.display_str(), "rat");
    assert_eq!(Typ::Bool.smt2_str(), "Bool");
    assert_eq!(Typ::Int.smt2_str(), "Int");
    assert_eq!(Typ::Rat.smt2_str(), "Real");
}

#[test]
fn cst_typs() {
    assert_eq!(Cst::bool(true).typ(), Typ::Bool);
    assert_eq!(Cst::int_cst(big(3)).typ(), Typ::Int);
    assert_eq!(Cst::rat(rat(1, 2)).typ(), Typ::Rat);
}

#[test]
fn bool_display() {
    assert_eq!(Cst::bool(true).display_string(), "true");
    assert_eq!(Cst::bool(false).display_string(), "false");
}

#[test]
fn int_display_non_negative() {
    assert_eq!(Cst::int_cst(big(0)).display_string(), "0");
    assert_eq!(Cst::int_cst(big(42)).display_string(), "42");
    assert_eq!(Cst::int_cst(big(1234567890123)).display_string(), "1234567890123");
}

#[test]
fn int_display_negative_wraps_in_negation() {
    let d = Cst::int_cst(big(-5)).display_string();
    assert!(d.starts_with("(- "));
    assert_eq!(d, "(- 5)");
    assert_eq!(Cst::int_cst(big(-1234567890123)).display_string(), "(- 1234567890123)");
}

#[test]
fn rat_display_all_sign_combinations() {
    assert_eq!(Cst::rat(rat(6, 4)).display_string(), "(/ 3 2)");
    assert_eq!(Cst::rat(rat(-6, 4)).display_string(), "(- (/ 3 2))");
    assert_eq!(Cst::rat(rat(6, -4)).display_string(), "(- (/ 3 2))");
    assert_eq!(Cst::rat(rat(-6, -4)).display_string(), "(/ 3 2)");
}

#[test]
fn rat_normalizes_to_lowest_terms() {
    assert_eq!(Cst::rat(rat(-6, 4)).display_string(), Cst::rat(rat(-3, 2)).display_string());
    assert!(Cst::rat(rat(-6, 4)).eq_cst(&Cst::rat(rat(-3, 2))));
    assert_eq!(Cst::rat(rat(0, 7)).display_string(), "(/ 0 1)");
}

#[test]
fn smt2_equals_display() {
    let c = Cst::rat(rat(-1, 2));
    assert_eq!(c.to_smt2_string(), c.display_string());
    let i = Cst::int_cst(big(-9));
    assert_eq!(i.to_smt2_string(), "(- 9)");
}

#[test]
fn as_bool_projection() {
    assert_eq!(Cst::bool(true).as_bool().unwrap(), true);
    let e = Cst::int_cst(big(1)).as_bool().unwrap_err();
    match e {
        Error::CstMismatch { expected, found, text } => {
            assert_eq!(expected, Typ::Bool);
            assert_eq!(found, Typ::Int);
            assert_eq!(text, "1");
        },
        other => panic!("unexpected error: {:?}", other),
    }
}

#[test]
fn as_int_projection() {
    let c = Cst::int_cst(big(7));
    assert_eq!(c.as_int().unwrap(), &big(7));
    let e = Cst::bool(false).as_int().unwrap_err();
    match e {
        Error::CstMismatch { expected, found, text } => {
            assert_eq!(expected, Typ::Int);
            assert_eq!(found, Typ::Bool);
            assert_eq!(text, "false");
        },
        other => panic!("unexpected error: {:?}", other),
    }
}

#[test]
fn as_rat_projection() {
    let c = Cst::rat(rat(1, 3));
    assert_eq!(c.as_rat().unwrap(), &rat(1, 3));
    let e = Cst::rat(rat(1, 3)).as_bool().unwrap_err();
    match e {
        Error::CstMismatch { expected, found, text } => {
            assert_eq!(expected, Typ::Bool);
            assert_eq!(found, Typ::Rat);
            assert_eq!(text, "(/ 1 3)");
        },
        other => panic!("unexpected error: {:?}", other),
    }
    let e2 = Cst::int_cst(big(2)).as_rat().unwrap_err();
    assert!(matches!(e2, Error::CstMismatch { expected: Typ::Rat, found: Typ::Int, .. }));
}

#[test]
fn structural_equality() {
    assert!(Cst::bool(true).eq_cst(&Cst::bool(true)));
    assert!(!Cst::bool(true).eq_cst(&Cst::bool(false)));
    assert!(Cst::int_cst(big(4)).eq_cst(&Cst::int_cst(big(4))));
    assert!(!Cst::int_cst(big(4)).eq_cst(&Cst::int_cst(big(5))));
    // different shapes are unequal, never an error
    assert!(!Cst::bool(true).eq_cst(&Cst::int_cst(big(1))));
    assert!(!Cst::int_cst(big(1)).eq_cst(&Cst::rat(rat(1, 1))));
}

#[test]
fn duplicate_preserves_value() {
    let c = Cst::rat(rat(-3, 7));
    let d = c.duplicate();
    assert!(c.eq_cst(&d));
    assert_eq!(c.display_string(), d.display_string());
    let i = Cst::int_cst(big(-11));
    assert!(i.eq_cst(&i.duplicate()));
}
