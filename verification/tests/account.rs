use decimal_rs::Decimal;
use tx_engine::amount::Amount;
use tx_engine::engine::account::{Account, AccountOperationError};

fn amt(d: Decimal) -> Amount {
    let (int_val, scale, negative) = d.into_parts();
    Amount::new(int_val, scale, negative).unwrap()
}

fn dec(n: i64) -> Amount {
    amt(Decimal::from(n))
}

fn val(a: Amount) -> Decimal {
    Decimal::from_parts(a.int_val(), a.scale(), a.is_negative()).unwrap()
}

fn default_account() -> Account {
    Account::default()
}

// --- available() ---

#[test]
fn available_equals_total_minus_held() {
    let mut account = default_account();
    account.total = dec(100);
    account.held = dec(30);
    assert_eq!(val(account.available()), Decimal::from(70));
}

#[test]
fn available_on_new_account_is_zero() {
    let account = default_account();
    assert_eq!(val(account.available()), Decimal::ZERO);
}

// --- credit_amount ---

#[test]
fn credit_increases_total() {
    let mut account = default_account();
    account.credit_amount(&dec(100)).unwrap();
    assert_eq!(val(account.total), Decimal::from(100));
    assert_eq!(val(account.available()), Decimal::from(100));
    assert_eq!(val(account.held), Decimal::ZERO);
}

#[test]
fn credit_on_locked_account_fails() {
    let mut account = default_account();
    account.locked = true;
    assert_eq!(
        account.credit_amount(&dec(100)),
        Err(AccountOperationError::AccountLocked)
    );
    assert_eq!(val(account.total), Decimal::ZERO);
}

#[test]
fn credit_accumulates_multiple_deposits() {
    let mut account = default_account();
    account.credit_amount(&dec(50)).unwrap();
    account.credit_amount(&dec(30)).unwrap();
    account.credit_amount(&dec(20)).unwrap();
    assert_eq!(val(account.total), Decimal::from(100));
}

// --- debit_amount ---

#[test]
fn debit_decreases_total() {
    let mut account = default_account();
    account.total = dec(100);
    account.debit_amount(&dec(30)).unwrap();
    assert_eq!(val(account.total), Decimal::from(70));
    assert_eq!(val(account.available()), Decimal::from(70));
}

#[test]
fn debit_with_insufficient_funds_fails() {
    let mut account = default_account();
    account.total = dec(50);
    assert_eq!(
        account.debit_amount(&dec(100)),
        Err(AccountOperationError::BalanceInsufficient)
    );
    assert_eq!(val(account.total), Decimal::from(50));
}

#[test]
fn debit_exact_available_succeeds() {
    let mut account = default_account();
    account.total = dec(100);
    account.debit_amount(&dec(100)).unwrap();
    assert_eq!(val(account.total), Decimal::ZERO);
    assert_eq!(val(account.available()), Decimal::ZERO);
}

#[test]
fn debit_on_locked_account_fails() {
    let mut account = default_account();
    account.total = dec(100);
    account.locked = true;
    assert_eq!(
        account.debit_amount(&dec(30)),
        Err(AccountOperationError::AccountLocked)
    );
    assert_eq!(val(account.total), Decimal::from(100));
}

#[test]
fn debit_considers_held_funds_unavailable() {
    let mut account = default_account();
    account.total = dec(100);
    account.held = dec(40);
    assert_eq!(val(account.available()), Decimal::from(60));
    assert_eq!(
        account.debit_amount(&dec(70)),
        Err(AccountOperationError::BalanceInsufficient)
    );
    account.debit_amount(&dec(60)).unwrap();
    assert_eq!(val(account.total), Decimal::from(40));
    assert_eq!(val(account.held), Decimal::from(40));
    assert_eq!(val(account.available()), Decimal::ZERO);
}

#[test]
fn debit_from_zero_account_fails() {
    let account = default_account();
    assert_eq!(val(account.total), Decimal::ZERO);
    let mut account = default_account();
    assert_eq!(
        account.debit_amount(&amt(Decimal::ONE)),
        Err(AccountOperationError::BalanceInsufficient)
    );
}

// --- hold_amount ---

#[test]
fn hold_increases_held_total_unchanged() {
    let mut account = default_account();
    account.total = dec(100);
    account.hold_amount(&dec(30)).unwrap();
    assert_eq!(val(account.held), Decimal::from(30));
    assert_eq!(val(account.available()), Decimal::from(70));
    assert_eq!(val(account.total), Decimal::from(100));
}

#[test]
fn hold_with_insufficient_available_succeeds() {
    let mut account = default_account();
    account.total = dec(50);
    account.held = dec(30);
    assert_eq!(val(account.available()), Decimal::from(20));
    assert_eq!(account.hold_amount(&dec(25)), Ok(()));
    assert_eq!(val(account.held), Decimal::from(55));
    assert_eq!(val(account.available()), Decimal::ZERO);
}

#[test]
fn hold_on_locked_account_fails() {
    let mut account = default_account();
    account.total = dec(100);
    account.locked = true;
    assert_eq!(
        account.hold_amount(&dec(30)),
        Err(AccountOperationError::AccountLocked)
    );
    assert_eq!(val(account.held), Decimal::ZERO);
}

#[test]
fn hold_accumulates_across_multiple_holds() {
    let mut account = default_account();
    account.total = dec(100);
    account.hold_amount(&dec(20)).unwrap();
    account.hold_amount(&dec(30)).unwrap();
    assert_eq!(val(account.held), Decimal::from(50));
    assert_eq!(val(account.available()), Decimal::from(50));
    assert_eq!(val(account.total), Decimal::from(100));
}

// --- release_amount ---

#[test]
fn release_decreases_held_total_unchanged() {
    let mut account = default_account();
    account.total = dec(100);
    account.held = dec(30);
    account.release_amount(&dec(10)).unwrap();
    assert_eq!(val(account.held), Decimal::from(20));
    assert_eq!(val(account.available()), Decimal::from(80));
    assert_eq!(val(account.total), Decimal::from(100));
}

#[test]
fn release_more_than_held_fails() {
    let mut account = default_account();
    account.total = dec(100);
    account.held = dec(20);
    assert_eq!(
        account.release_amount(&dec(30)),
        Err(AccountOperationError::BalanceInsufficient)
    );
    assert_eq!(val(account.held), Decimal::from(20));
}

#[test]
fn release_on_locked_account_fails() {
    let mut account = default_account();
    account.total = dec(100);
    account.held = dec(30);
    account.locked = true;
    assert_eq!(
        account.release_amount(&dec(10)),
        Err(AccountOperationError::AccountLocked)
    );
    assert_eq!(val(account.held), Decimal::from(30));
}

#[test]
fn release_all_held_returns_all_to_available() {
    let mut account = default_account();
    account.total = dec(100);
    account.held = dec(100);
    account.release_amount(&dec(100)).unwrap();
    assert_eq!(val(account.held), Decimal::ZERO);
    assert_eq!(val(account.available()), Decimal::from(100));
}

#[test]
fn release_on_account_with_no_held_fails() {
    let mut account = default_account();
    account.total = dec(100);
    assert_eq!(
        account.release_amount(&amt(Decimal::ONE)),
        Err(AccountOperationError::BalanceInsufficient)
    );
    assert_eq!(val(account.held), Decimal::ZERO);
}

// --- integration: full deposit/withdrawal/dispute/resolve lifecycle ---

#[test]
fn deposit_withdrawal_dispute_resolve_lifecycle() {
    let mut account = default_account();

    account.credit_amount(&dec(100)).unwrap();
    assert_eq!(val(account.total), Decimal::from(100));
    assert_eq!(val(account.available()), Decimal::from(100));
    assert_eq!(val(account.held), Decimal::ZERO);

    account.debit_amount(&dec(30)).unwrap();
    assert_eq!(val(account.total), Decimal::from(70));
    assert_eq!(val(account.available()), Decimal::from(70));

    account.hold_amount(&dec(50)).unwrap();
    assert_eq!(val(account.total), Decimal::from(70));
    assert_eq!(val(account.held), Decimal::from(50));
    assert_eq!(val(account.available()), Decimal::from(20));

    account.release_amount(&dec(50)).unwrap();
    assert_eq!(val(account.total), Decimal::from(70));
    assert_eq!(val(account.held), Decimal::ZERO);
    assert_eq!(val(account.available()), Decimal::from(70));
}

#[test]
fn deposit_withdrawal_dispute_chargeback_lifecycle() {
    let mut account = default_account();

    account.credit_amount(&dec(100)).unwrap();
    account.debit_amount(&dec(30)).unwrap();
    assert_eq!(val(account.total), Decimal::from(70));
    assert_eq!(val(account.available()), Decimal::from(70));

    account.hold_amount(&dec(50)).unwrap();
    assert_eq!(val(account.total), Decimal::from(70));
    assert_eq!(val(account.held), Decimal::from(50));
    assert_eq!(val(account.available()), Decimal::from(20));

    account.debit_amount(&dec(20)).unwrap();
    assert_eq!(val(account.total), Decimal::from(50));
    assert_eq!(val(account.held), Decimal::from(50));
    assert_eq!(val(account.available()), Decimal::from(0));

    let res = account.lock();
    assert!(res.is_ok());
    assert!(account.locked);

    assert_eq!(
        account.credit_amount(&dec(10)),
        Err(AccountOperationError::AccountLocked)
    );
    assert_eq!(
        account.debit_amount(&dec(10)),
        Err(AccountOperationError::AccountLocked)
    );
    assert_eq!(
        account.hold_amount(&dec(10)),
        Err(AccountOperationError::AccountLocked)
    );
    assert_eq!(
        account.release_amount(&dec(10)),
        Err(AccountOperationError::AccountLocked)
    );
}

#[test]
fn locked_account_rejects_all_operations() {
    let mut account = default_account();
    account.total = dec(100);
    account.held = dec(20);
    account.locked = true;

    assert!(matches!(
        account.credit_amount(&dec(10)),
        Err(AccountOperationError::AccountLocked)
    ));
    assert!(matches!(
        account.debit_amount(&dec(10)),
        Err(AccountOperationError::AccountLocked)
    ));
    assert!(matches!(
        account.hold_amount(&dec(10)),
        Err(AccountOperationError::AccountLocked)
    ));
    assert!(matches!(
        account.release_amount(&dec(10)),
        Err(AccountOperationError::AccountLocked)
    ));
    assert_eq!(val(account.total), Decimal::from(100));
    assert_eq!(val(account.held), Decimal::from(20));
}

#[test]
fn account_cannot_be_locked_twice() {
    let mut account = default_account();

    let res = account.lock();
    assert!(res.is_ok());

    assert!(matches!(
        account.lock(),
        Err(AccountOperationError::AccountLocked)
    ));
}

#[test]
fn account_chargeback_after_withdraw_results_in_negative_balance() {
    let mut account = default_account();

    assert!(matches!(account.credit_amount(&dec(10)), Ok(_)));
    assert!(matches!(account.debit_amount(&dec(10)), Ok(_)));
    assert!(matches!(account.hold_amount(&dec(10)), Ok(_)));

    assert!(matches!(account.debit_chargeback(&dec(10)), Ok(_)));

    assert_eq!(val(account.held), Decimal::from(10));
    assert_eq!(val(account.available()), Decimal::ZERO);
    assert_eq!(val(account.total), Decimal::from(-10));
    assert!(account.locked);
}

// --- further cases ---

#[test]
fn getters_return_fields() {
    let mut account = default_account();
    account.total = dec(12);
    account.held = dec(5);
    assert_eq!(val(account.total()), Decimal::from(12));
    assert_eq!(val(account.held()), Decimal::from(5));
    assert!(!account.locked());
    account.lock().unwrap();
    assert!(account.locked());
}

#[test]
fn available_is_zero_when_held_exceeds_total() {
    let mut account = default_account();
    account.total = dec(-10);
    account.held = dec(10);
    assert_eq!(val(account.available()), Decimal::ZERO);
}

#[test]
fn fractional_amounts_are_exact() {
    let mut account = default_account();
    account.credit_amount(&amt("1.5".parse().unwrap())).unwrap();
    account.credit_amount(&amt("0.25".parse().unwrap())).unwrap();
    account.hold_amount(&amt("0.75".parse().unwrap())).unwrap();
    assert_eq!(val(account.total), "1.75".parse::<Decimal>().unwrap());
    assert_eq!(val(account.available()), Decimal::ONE);
    account.release_amount(&amt("0.75".parse().unwrap())).unwrap();
    assert_eq!(val(account.held), Decimal::ZERO);
}

#[test]
fn chargeback_on_locked_account_fails_and_changes_nothing() {
    let mut account = default_account();
    account.total = dec(10);
    account.locked = true;
    assert_eq!(
        account.debit_chargeback(&dec(10)),
        Err(AccountOperationError::AccountLocked)
    );
    assert_eq!(val(account.total), Decimal::from(10));
}

#[test]
fn hold_then_release_restores_held() {
    let mut account = default_account();
    account.total = dec(40);
    account.held = dec(7);
    account.hold_amount(&dec(13)).unwrap();
    account.release_amount(&dec(13)).unwrap();
    assert_eq!(val(account.held), Decimal::from(7));
    assert_eq!(val(account.available()), Decimal::from(33));
}
