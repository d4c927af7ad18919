use ledger_engine::amount::{AmountError, CreditUsd, DebtUsd, Usd, MAX_RAW, MAX_UNITS, SCALE};
use ledger_engine::decimal::{decimal_string, read_decimal};

fn usd(text: &str) -> Usd {
    Usd::try_from_str(text).unwrap()
}

fn credit(text: &str) -> CreditUsd {
    usd(text).credit().unwrap()
}

fn debt(text: &str) -> DebtUsd {
    usd(text).debt().unwrap()
}

#[test]
fn bound_is_units_times_scale() {
    assert_eq!(SCALE, 10_000);
    assert_eq!(MAX_UNITS, 14_000_000_000_000);
    assert_eq!(MAX_RAW, MAX_UNITS * SCALE);
}

#[test]
fn text_with_four_fraction_digits() {
    let ten = usd("10.0000");
    assert_eq!(ten.raw(), 100_000);
    assert!(matches!(ten, Usd::Credit(_)));
    assert_eq!(usd("0.0001").raw(), 1);
    assert_eq!(usd("12.3456").raw(), 123_456);
}

#[test]
fn text_with_fewer_fraction_digits_is_padded() {
    assert_eq!(usd("5").raw(), 50_000);
    assert_eq!(usd("5.").raw(), 50_000);
    assert_eq!(usd("1.5").raw(), 15_000);
    assert_eq!(usd("1.05").raw(), 10_500);
    assert_eq!(usd("1.005").raw(), 10_050);
    assert_eq!(usd("007.1").raw(), 71_000);
}

#[test]
fn text_with_more_fraction_digits_is_refused() {
    assert_eq!(Usd::try_from_str("1.00000"), Err(AmountError::Malformed));
    assert_eq!(Usd::try_from_str("1.23456"), Err(AmountError::Malformed));
}

#[test]
fn text_with_a_sign() {
    let owed = usd("-2.5");
    assert_eq!(owed.raw(), -25_000);
    assert!(matches!(owed, Usd::Debt(_)));
    assert_eq!(usd("+2.5").raw(), 25_000);
    let nothing = usd("-0");
    assert_eq!(nothing.raw(), 0);
    assert!(matches!(nothing, Usd::Credit(_)));
}

#[test]
fn text_that_is_no_decimal_is_refused() {
    for text in ["", "-", "+", ".", ".5", "abc", "1a", "1.2a", "1..2", "1.2.3", "--1", "-+1", "1 ", " 1", "1,5", "\u{663}"] {
        assert_eq!(Usd::try_from_str(text), Err(AmountError::Malformed), "{}", text);
    }
}

#[test]
fn text_at_and_past_the_bound() {
    assert_eq!(usd("14000000000000").raw(), MAX_RAW);
    assert_eq!(usd("14000000000000.0000").raw(), MAX_RAW);
    assert_eq!(usd("-14000000000000").raw(), -MAX_RAW);
    assert_eq!(Usd::try_from_str("14000000000000.0001"), Err(AmountError::OutOfRange));
    assert_eq!(Usd::try_from_str("-14000000000000.0001"), Err(AmountError::OutOfRange));
    assert_eq!(Usd::try_from_str("14000000000001"), Err(AmountError::OutOfRange));
    assert_eq!(
        Usd::try_from_str("99999999999999999999999999999999999999999999999999"),
        Err(AmountError::OutOfRange)
    );
    assert_eq!(
        Usd::try_from_str("99999999999999999999999999999999999999999999999999x"),
        Err(AmountError::Malformed)
    );
}

#[test]
fn read_decimal_caps_the_magnitude() {
    assert_eq!(read_decimal("1.5", 1_000_000), Some((15_000, false)));
    assert_eq!(read_decimal("-1.5", 1_000_000), Some((15_000, true)));
    assert_eq!(read_decimal("100", 1_000_000), Some((1_000_000, false)));
    assert_eq!(read_decimal("100.0001", 1_000_000), Some((1_000_001, false)));
    assert_eq!(read_decimal("9999999", 1_000_000), Some((1_000_001, false)));
    assert_eq!(read_decimal("x", 1_000_000), None);
}

#[test]
fn numbers_are_spelled_in_base_ten() {
    assert_eq!(decimal_string(0), "0");
    assert_eq!(decimal_string(7), "7");
    assert_eq!(decimal_string(10), "10");
    assert_eq!(decimal_string(1234567890), "1234567890");
    assert_eq!(decimal_string(u128::MAX), u128::MAX.to_string());
}

#[test]
fn whole_units_become_amounts() {
    assert_eq!(Usd::try_from_int(0).unwrap().raw(), 0);
    assert!(matches!(Usd::try_from_int(0).unwrap(), Usd::Credit(_)));
    assert_eq!(Usd::try_from_int(90).unwrap().raw(), 900_000);
    assert_eq!(Usd::try_from_int(-4).unwrap().raw(), -40_000);
    assert!(matches!(Usd::try_from_int(-4).unwrap(), Usd::Debt(_)));
    assert_eq!(Usd::try_from_int(MAX_UNITS as i128).unwrap().raw(), MAX_RAW);
    assert_eq!(Usd::try_from_int(-(MAX_UNITS as i128)).unwrap().raw(), -MAX_RAW);
    assert_eq!(Usd::try_from_int(MAX_UNITS as i128 + 1), Err(AmountError::OutOfRange));
    assert_eq!(Usd::try_from_int(-(MAX_UNITS as i128) - 1), Err(AmountError::OutOfRange));
    assert_eq!(Usd::try_from_int(i128::MAX), Err(AmountError::OutOfRange));
    assert_eq!(Usd::try_from_int(i128::MIN), Err(AmountError::OutOfRange));
}

#[test]
fn credits_add_up_to_the_bound() {
    assert_eq!(credit("4").checked_add(credit("6")).unwrap().raw(), 100_000);
    assert_eq!(credit("0").checked_add(credit("0")).unwrap().raw(), 0);
    let top = credit("14000000000000");
    assert_eq!(top.checked_add(credit("0")).unwrap().raw(), MAX_RAW);
    assert_eq!(top.checked_add(credit("0.0001")), None);
    assert_eq!(credit("7000000000000").checked_add(credit("7000000000000")).unwrap().raw(), MAX_RAW);
    assert_eq!(top.checked_add(top), None);
}

#[test]
fn debts_add_up_to_the_bound() {
    assert_eq!(debt("-4").checked_add(debt("-6")).unwrap().raw(), -100_000);
    let bottom = debt("-14000000000000");
    assert_eq!(bottom.checked_add(debt("-0.0001")), None);
    assert_eq!(debt("-13999999999999.9999").checked_add(debt("-0.0001")).unwrap().raw(), -MAX_RAW);
}

#[test]
fn credit_less_debt_has_the_sign_of_the_result() {
    let rest = credit("6").less(debt("-6"));
    assert_eq!(rest.raw(), 0);
    assert!(matches!(rest, Usd::Credit(_)));
    let rest = credit("6").less(debt("-4"));
    assert_eq!(rest.raw(), 20_000);
    assert!(matches!(rest, Usd::Credit(_)));
    let rest = credit("4").less(debt("-6"));
    assert_eq!(rest.raw(), -20_000);
    assert!(matches!(rest, Usd::Debt(_)));
    assert_eq!(credit("0").less(debt("-14000000000000")).raw(), -MAX_RAW);
}

#[test]
fn debt_plus_credit_has_the_sign_of_the_result() {
    let rest = debt("-4").plus(credit("6"));
    assert_eq!(rest.raw(), 20_000);
    assert!(matches!(rest, Usd::Credit(_)));
    let rest = debt("-6").plus(credit("4"));
    assert_eq!(rest.raw(), -20_000);
    assert!(matches!(rest, Usd::Debt(_)));
    let rest = debt("-6").plus(credit("6"));
    assert_eq!(rest, Usd::zero());
}

#[test]
fn amounts_add_with_a_check() {
    assert_eq!(usd("679").checked_add(usd("-29")).unwrap().raw(), 6_500_000);
    assert_eq!(usd("-29").checked_add(usd("-1")).unwrap().raw(), -300_000);
    assert!(matches!(usd("-1").checked_add(usd("1")).unwrap(), Usd::Credit(_)));
    assert_eq!(usd("14000000000000").checked_add(usd("0.0001")), None);
    assert_eq!(usd("-14000000000000").checked_add(usd("-0.0001")), None);
    assert_eq!(usd("14000000000000").checked_add(usd("-14000000000000")).unwrap().raw(), 0);
}

#[test]
fn negation_keeps_the_magnitude() {
    assert_eq!(usd("2.5").negated(), usd("-2.5"));
    assert_eq!(usd("-2.5").negated(), usd("2.5"));
    assert_eq!(usd("0").negated(), Usd::zero());
    assert_eq!(usd("14000000000000").negated().raw(), -MAX_RAW);
    assert_eq!(usd("-14000000000000").negated().raw(), MAX_RAW);
    assert_eq!(debt("-3").magnitude(), credit("3"));
}

#[test]
fn sign_decides_credit_or_debt() {
    assert_eq!(usd("3").credit(), Some(credit("3")));
    assert_eq!(usd("3").debt(), None);
    assert_eq!(usd("-3").credit(), None);
    assert_eq!(usd("-3").debt(), Some(debt("-3")));
    assert_eq!(usd("0").credit(), Some(CreditUsd::zero()));
    assert_eq!(usd("0").debt(), None);
}

#[test]
fn parts_have_the_sign_of_the_amount() {
    assert_eq!(usd("12.3456").to_parts(), (12, 3456, 10_000));
    assert_eq!(usd("-12.3456").to_parts(), (-12, -3456, 10_000));
    assert_eq!(usd("0").to_parts(), (0, 0, 10_000));
    assert_eq!(usd("-0.5").to_parts(), (0, -5000, 10_000));
    assert_eq!(usd("14000000000000").to_parts(), (14_000_000_000_000, 0, 10_000));
}

#[test]
fn equal_amounts_are_equal() {
    assert_eq!(usd("1.5"), usd("1.5000"));
    assert_ne!(usd("1.5"), usd("1.5001"));
    assert_ne!(usd("1.5"), usd("-1.5"));
    assert_eq!(credit("1.5").raw(), usd("1.5").raw());
}

#[test]
fn amounts_are_ordered_by_value() {
    assert!(credit("1") < credit("1.0001"));
    assert!(credit("1") <= credit("1.0"));
    assert!(debt("-2") < debt("-1"));
    assert!(debt("-1") > debt("-1.0001"));
    assert!(usd("-0.0001") < usd("0"));
    assert!(usd("3") >= usd("3.0"));
    assert!(usd("-14000000000000") < usd("14000000000000"));
    assert_eq!(usd("1").partial_cmp(&usd("2")), Some(std::cmp::Ordering::Less));
    assert_eq!(usd("2").partial_cmp(&usd("2.0000")), Some(std::cmp::Ordering::Equal));
    assert_eq!(usd("2").partial_cmp(&usd("-2")), Some(std::cmp::Ordering::Greater));
}
