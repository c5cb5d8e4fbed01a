use decimal_rs::Decimal;
use tx_engine::amount::Amount;
use tx_engine::engine::account::Account;
use tx_engine::format::account::Account as Report;

fn amt(d: Decimal) -> Amount {
    let (int_val, scale, negative) = d.into_parts();
    Amount::new(int_val, scale, negative).unwrap()
}

fn val(a: Amount) -> Decimal {
    Decimal::from_parts(a.int_val(), a.scale(), a.is_negative()).unwrap()
}

fn d(s: &str) -> Decimal {
    s.parse().unwrap()
}

#[test]
fn new_rejects_invalid_parts() {
    assert!(Amount::new(0, 0, true).is_none());
    assert!(Amount::new(0, 5, false).is_none());
    assert!(Amount::new(100_000_000_000_000_000_000_000_000_000_000_000_000, 0, false).is_none());
    assert!(Amount::new(1, 168, false).is_none());
    assert!(Amount::new(1, -127, false).is_none());
    let a = Amount::new(5, -126, true).unwrap();
    assert_eq!((a.int_val(), a.scale(), a.is_negative()), (5, -126, true));
}

#[test]
fn zero_is_zero() {
    let z = Amount::zero();
    assert_eq!((z.int_val(), z.scale(), z.is_negative()), (0, 0, false));
}

#[test]
fn checked_add_adds() {
    let a = amt(d("1.25"));
    let b = amt(d("-3"));
    assert_eq!(val(a.checked_add(&b).unwrap()), d("-1.75"));
    assert_eq!(val(a.checked_add(&a).unwrap()), d("2.5"));
}

#[test]
fn checked_sub_subtracts() {
    let a = amt(d("1.25"));
    let b = amt(d("0.5"));
    assert_eq!(val(a.checked_sub(&b).unwrap()), d("0.75"));
    assert_eq!(val(b.checked_sub(&a).unwrap()), d("-0.75"));
}

#[test]
fn checked_add_overflows_to_none() {
    let huge = Amount::new(99_999_999_999_999_999_999_999_999_999_999_999_999, -126, false).unwrap();
    assert!(huge.checked_add(&huge).is_none());
    let neg = Amount::new(99_999_999_999_999_999_999_999_999_999_999_999_999, -126, true).unwrap();
    assert!(huge.checked_sub(&neg).is_none());
}

#[test]
fn checked_add_rounds_beyond_38_digits() {
    let big = amt(d("99999999999999999999999999999999999999"));
    let r = big.checked_add(&big).unwrap();
    assert_eq!(val(r), Decimal::from_parts(20_000_000_000_000_000_000_000_000_000_000_000_000, -1, false).unwrap());
}

#[test]
fn gt_compares_values() {
    assert!(amt(d("0.5")).gt(&amt(d("0.25"))));
    assert!(!amt(d("0.25")).gt(&amt(d("0.5"))));
    assert!(!amt(d("1.0")).gt(&amt(d("1"))));
    assert!(amt(d("-1")).gt(&amt(d("-2"))));
}

#[test]
fn report_from_engine() {
    let mut account = Account::default();
    account.total = amt(d("10"));
    account.held = amt(d("4"));
    let r = Report::from_engine(3, &account);
    assert_eq!(r.client, 3);
    assert_eq!(val(r.available), d("6"));
    assert_eq!(val(r.held), d("4"));
    assert_eq!(val(r.total), d("10"));
    assert!(!r.locked);
    let c = Report::checked_from_engine(3, &account).unwrap();
    assert_eq!(val(c.available), d("6"));
}

#[test]
fn report_of_overdrawn_locked_account() {
    let mut account = Account::default();
    account.total = amt(d("-10"));
    account.held = amt(d("0"));
    account.locked = true;
    let r = Report::from_engine(8, &account);
    assert_eq!(val(r.available), Decimal::ZERO);
    assert_eq!(val(r.total), d("-10"));
    assert!(r.locked);
}

#[test]
fn report_is_none_when_available_overflows() {
    let mut account = Account::default();
    account.total = Amount::new(99_999_999_999_999_999_999_999_999_999_999_999_999, -126, false).unwrap();
    account.held = Amount::new(99_999_999_999_999_999_999_999_999_999_999_999_999, -126, true).unwrap();
    assert!(Report::checked_from_engine(1, &account).is_none());
}

#[test]
fn zero_operands_follow_decimal_rs() {
    let zero = Amount::zero();
    let one = amt(Decimal::ONE);
    let r = zero.checked_add(&one).unwrap();
    assert_eq!((r.int_val(), r.scale(), r.is_negative()), (1, 0, false));
    let minus_one = amt(Decimal::from(-1));
    let r = minus_one.checked_sub(&zero).unwrap();
    assert_eq!((r.int_val(), r.scale(), r.is_negative()), (1, 0, true));
    let hundreds = Amount::new(5, -2, false).unwrap();
    let r = zero.checked_add(&hundreds).unwrap();
    assert_eq!((r.int_val(), r.scale(), r.is_negative()), (500, 0, false));
    let r = one.checked_sub(&one).unwrap();
    assert_eq!((r.int_val(), r.scale(), r.is_negative()), (0, 0, false));
}
