//! A client account: its total funds, the part of them held by disputes, and
//! whether a chargeback has locked it.
use crate::amount::{add_fits, add_result, group_amount, sub_fits, sub_result, Amount};
use vstd::prelude::*;

verus! {

broadcast use group_amount;

/// A client account.
#[derive(Debug, Clone, Copy)]
pub struct Account {
    /// Total funds held in the account
    pub total: Amount,
    /// Funds unavailable to the account due to disputes
    pub held: Amount,
    /// Whether this account is locked and unable to receive any more transactions
    pub locked: bool,
}

/// Why an account refused an operation.
#[derive(Debug, Clone, Copy, PartialEq, Eq, Structural)]
pub enum AccountOperationError {
    AccountLocked,
    BalanceInsufficient,
}

/// An account after an operation, and the operation's outcome.
pub type AccountStep = (Account, Result<(), AccountOperationError>);

impl Account {
    /// A new account: nothing held, nothing in it, unlocked.
    pub open spec fn spec_default() -> Account {
        Account { total: Amount::spec_zero(), held: Amount::spec_zero(), locked: false }
    }

    /// `total - held` can be computed.
    pub open spec fn available_defined(self) -> bool {
        sub_result(self.total, self.held) is Some
    }

    /// The funds readily available: `total - held`, or zero where that is not positive.
    pub open spec fn spec_available(self) -> Amount {
        let d = Amount::from_view(sub_result(self.total, self.held)->0);
        if d.value() > 0 {
            d
        } else {
            Amount::spec_zero()
        }
    }

    /// The same account with another total.
    pub open spec fn with_total(self, total: Option<(u128, i16, bool)>) -> Account {
        Account { total: Amount::from_view(total->0), ..self }
    }

    /// The same account with another held amount.
    pub open spec fn with_held(self, held: Option<(u128, i16, bool)>) -> Account {
        Account { held: Amount::from_view(held->0), ..self }
    }

    /// Crediting `amount`: refused on a locked account, else added to the total.
    pub open spec fn credit_spec(self, amount: Amount) -> AccountStep {
        if self.locked {
            (self, Err(AccountOperationError::AccountLocked))
        } else {
            (self.with_total(add_result(self.total, amount)), Ok(()))
        }
    }

    /// Crediting `amount` runs without overflow.
    pub open spec fn credit_defined(self, amount: Amount) -> bool {
        !self.locked ==> add_result(self.total, amount) is Some
    }

    /// Debiting `amount`: refused on a locked account, refused when it exceeds
    /// the available funds, else taken from the total.
    pub open spec fn debit_spec(self, amount: Amount) -> AccountStep {
        if self.locked {
            (self, Err(AccountOperationError::AccountLocked))
        } else if amount.value() > self.spec_available().value() {
            (self, Err(AccountOperationError::BalanceInsufficient))
        } else {
            (self.with_total(sub_result(self.total, amount)), Ok(()))
        }
    }

    /// Debiting `amount` runs without overflow.
    pub open spec fn debit_defined(self, amount: Amount) -> bool {
        !self.locked ==> {
            &&& self.available_defined()
            &&& !(amount.value() > self.spec_available().value()) ==> sub_result(
                self.total,
                amount,
            ) is Some
        }
    }

    /// Locking: refused on a locked account.
    pub open spec fn lock_spec(self) -> AccountStep {
        if self.locked {
            (self, Err(AccountOperationError::AccountLocked))
        } else {
            (Account { locked: true, ..self }, Ok(()))
        }
    }

    /// A chargeback debit: refused on a locked account, else the account is
    /// locked and `amount` taken from the total, which may go negative.
    pub open spec fn debit_chargeback_spec(self, amount: Amount) -> AccountStep {
        if self.locked {
            (self, Err(AccountOperationError::AccountLocked))
        } else {
            (Account { locked: true, ..self }.with_total(sub_result(self.total, amount)), Ok(()))
        }
    }

    /// A chargeback debit runs without overflow.
    pub open spec fn debit_chargeback_defined(self, amount: Amount) -> bool {
        !self.locked ==> sub_result(self.total, amount) is Some
    }

    /// Holding `amount`: refused on a locked account, else added to the held
    /// funds, whatever the available funds.
    pub open spec fn hold_spec(self, amount: Amount) -> AccountStep {
        if self.locked {
            (self, Err(AccountOperationError::AccountLocked))
        } else {
            (self.with_held(add_result(self.held, amount)), Ok(()))
        }
    }

    /// Holding `amount` runs without overflow.
    pub open spec fn hold_defined(self, amount: Amount) -> bool {
        !self.locked ==> add_result(self.held, amount) is Some
    }

    /// Releasing `amount`: refused on a locked account, refused when it exceeds
    /// the held funds, else taken from the held funds.
    pub open spec fn release_spec(self, amount: Amount) -> AccountStep {
        if self.locked {
            (self, Err(AccountOperationError::AccountLocked))
        } else if amount.value() > self.held.value() {
            (self, Err(AccountOperationError::BalanceInsufficient))
        } else {
            (self.with_held(sub_result(self.held, amount)), Ok(()))
        }
    }

    /// Releasing `amount` runs without overflow.
    pub open spec fn release_defined(self, amount: Amount) -> bool {
        !self.locked && !(amount.value() > self.held.value()) ==> sub_result(
            self.held,
            amount,
        ) is Some
    }

    /// Funds readily available to the account
    pub fn available(&self) -> (r: Amount)
        requires
            self.available_defined(),
        ensures
            r == self.spec_available(),
            r.value() >= 0,
            sub_fits(self.total, self.held) ==> r.value() == if self.total.value()
                - self.held.value() > 0 {
                self.total.value() - self.held.value()
            } else {
                0
            },
    {
        let d = self.total.checked_sub(&self.held).unwrap();
        let zero = Amount::zero();
        if d.gt(&zero) {
            d
        } else {
            zero
        }
    }

    /// Total funds.
    pub fn total(&self) -> (r: Amount)
        ensures
            r == self.total,
    {
        self.total
    }

    /// Funds held by disputes.
    pub fn held(&self) -> (r: Amount)
        ensures
            r == self.held,
    {
        self.held
    }

    /// Whether the account is locked.
    pub fn locked(&self) -> (r: bool)
        ensures
            r == self.locked,
    {
        self.locked
    }

    /// Credit an amount of money to the account.
    /// Cannot be called on locked accounts.
    pub fn credit_amount(&mut self, amount: &Amount) -> (r: Result<(), AccountOperationError>)
        requires
            old(self).credit_defined(*amount),
        ensures
            (*final(self), r) == old(self).credit_spec(*amount),
            r is Ok && add_fits(old(self).total, *amount) ==> final(self).total.value() == old(
                self,
            ).total.value() + amount.value(),
    {
        if self.locked {
            Err(AccountOperationError::AccountLocked)
        } else {
            self.total = self.total.checked_add(amount).unwrap();
            Ok(())
        }
    }

    /// Debit an amount from an account
    /// Fails on a locked account, or unavailable funds.
    pub fn debit_amount(&mut self, amount: &Amount) -> (r: Result<(), AccountOperationError>)
        requires
            old(self).debit_defined(*amount),
        ensures
            (*final(self), r) == old(self).debit_spec(*amount),
            r is Ok && sub_fits(old(self).total, *amount) ==> final(self).total.value() == old(
                self,
            ).total.value() - amount.value(),
    {
        if self.locked {
            Err(AccountOperationError::AccountLocked)
        } else if amount.gt(&self.available()) {
            Err(AccountOperationError::BalanceInsufficient)
        } else {
            self.total = self.total.checked_sub(amount).unwrap();
            Ok(())
        }
    }

    /// Debit an amount and lock an account during a chargeback
    /// Fails on a locked account. MAY cause `total` to go negative.
    pub fn debit_chargeback(&mut self, amount: &Amount) -> (r: Result<(), AccountOperationError>)
        requires
            old(self).debit_chargeback_defined(*amount),
        ensures
            (*final(self), r) == old(self).debit_chargeback_spec(*amount),
            r is Ok && sub_fits(old(self).total, *amount) ==> final(self).total.value() == old(
                self,
            ).total.value() - amount.value(),
    {
        match self.lock() {
            Err(e) => { return Err(e) },
            Ok(()) => {},
        }
        self.total = self.total.checked_sub(amount).unwrap();
        Ok(())
    }

    /// Stakes a hold on an account's funds (used when a transaction is disputed)
    /// Fails on locked accounts.
    pub fn hold_amount(&mut self, amount: &Amount) -> (r: Result<(), AccountOperationError>)
        requires
            old(self).hold_defined(*amount),
        ensures
            (*final(self), r) == old(self).hold_spec(*amount),
            r is Ok && add_fits(old(self).held, *amount) ==> final(self).held.value() == old(
                self,
            ).held.value() + amount.value(),
    {
        if self.locked {
            Err(AccountOperationError::AccountLocked)
        } else {
            self.held = self.held.checked_add(amount).unwrap();
            Ok(())
        }
    }

    /// Release a held amount (dispute was resolved)
    /// Fails on locked accounts. `amount` must be <= `account.held`.
    pub fn release_amount(&mut self, amount: &Amount) -> (r: Result<(), AccountOperationError>)
        requires
            old(self).release_defined(*amount),
        ensures
            (*final(self), r) == old(self).release_spec(*amount),
            r is Ok && sub_fits(old(self).held, *amount) ==> final(self).held.value() == old(
                self,
            ).held.value() - amount.value(),
    {
        if self.locked {
            Err(AccountOperationError::AccountLocked)
        } else if amount.gt(&self.held) {
            Err(AccountOperationError::BalanceInsufficient)
        } else {
            self.held = self.held.checked_sub(amount).unwrap();
            Ok(())
        }
    }

    /// Locks an account for having charged back a transaction.
    pub fn lock(&mut self) -> (r: Result<(), AccountOperationError>)
        ensures
            (*final(self), r) == old(self).lock_spec(),
    {
        if self.locked {
            Err(AccountOperationError::AccountLocked)
        } else {
            self.locked = true;
            Ok(())
        }
    }
}

impl Default for Account {
    fn default() -> (r: Self)
        ensures
            r == Account::spec_default(),
    {
        Account { total: Amount::zero(), held: Amount::zero(), locked: false }
    }
}

/// The available funds are never negative.
pub proof fn lemma_available_nonnegative(a: Account)
    ensures
        a.spec_available().value() >= 0,
{
}

/// A locked account refuses every operation with `AccountLocked` and stays as it was.
pub proof fn lemma_locked_account_rejects_all(a: Account, amount: Amount)
    requires
        a.locked,
    ensures
        a.credit_spec(amount) == (a, Err::<(), _>(AccountOperationError::AccountLocked)),
        a.debit_spec(amount) == (a, Err::<(), _>(AccountOperationError::AccountLocked)),
        a.hold_spec(amount) == (a, Err::<(), _>(AccountOperationError::AccountLocked)),
        a.release_spec(amount) == (a, Err::<(), _>(AccountOperationError::AccountLocked)),
        a.debit_chargeback_spec(amount) == (a, Err::<(), _>(AccountOperationError::AccountLocked)),
        a.lock_spec() == (a, Err::<(), _>(AccountOperationError::AccountLocked)),
{
}

/// A refused operation leaves the account as it was; no operation unlocks an
/// account; credits and debits leave the held funds alone, holds and releases
/// leave the total alone.
pub proof fn lemma_operation_frames(a: Account, amount: Amount)
    ensures
        a.credit_spec(amount).1 is Err ==> a.credit_spec(amount).0 == a,
        a.debit_spec(amount).1 is Err ==> a.debit_spec(amount).0 == a,
        a.hold_spec(amount).1 is Err ==> a.hold_spec(amount).0 == a,
        a.release_spec(amount).1 is Err ==> a.release_spec(amount).0 == a,
        a.debit_chargeback_spec(amount).1 is Err ==> a.debit_chargeback_spec(amount).0 == a,
        a.lock_spec().1 is Err ==> a.lock_spec().0 == a,
        a.credit_spec(amount).0.locked == a.locked && a.debit_spec(amount).0.locked == a.locked,
        a.hold_spec(amount).0.locked == a.locked && a.release_spec(amount).0.locked == a.locked,
        a.lock_spec().0.locked && a.debit_chargeback_spec(amount).0.locked,
        a.credit_spec(amount).0.held == a.held && a.debit_spec(amount).0.held == a.held,
        a.debit_chargeback_spec(amount).0.held == a.held,
        a.hold_spec(amount).0.total == a.total && a.release_spec(amount).0.total == a.total,
{
}

/// Only an unlocked account can be locked, and locking it succeeds; so an
/// account cannot be locked twice.
pub proof fn lemma_lock_once(a: Account)
    ensures
        a.lock_spec().1 is Ok <==> !a.locked,
        a.lock_spec().0.lock_spec().1 == Err::<(), _>(AccountOperationError::AccountLocked),
{
}

/// Where no addition rounds, two credits add up: crediting `x` then `y`
/// gives the same total as crediting `x + y` to an account with the same total.
pub proof fn lemma_credits_accumulate(a: Account, b: Account, x: Amount, y: Amount)
    requires
        !a.locked,
        !b.locked,
        a.total.value() == b.total.value(),
        add_fits(a.total, x),
        add_fits(a.credit_spec(x).0.total, y),
        add_fits(x, y),
        add_fits(b.total, Amount::from_view(add_result(x, y)->0)),
    ensures
        a.credit_spec(x).1 is Ok && a.credit_spec(x).0.credit_spec(y).1 is Ok,
        b.credit_spec(Amount::from_view(add_result(x, y)->0)).1 is Ok,
        a.credit_spec(x).0.credit_spec(y).0.total.value() == a.total.value() + x.value()
            + y.value(),
        a.credit_spec(x).0.credit_spec(y).0.total.value() == b.credit_spec(
            Amount::from_view(add_result(x, y)->0),
        ).0.total.value(),
        a.credit_spec(x).0.credit_spec(y).0.held == a.held,
{
}

/// Where neither step rounds, releasing what was just held undoes the hold:
/// the release is accepted and the held funds, the total, the lock and (where
/// `total - held` does not round either) the available funds are as before.
pub proof fn lemma_release_undoes_hold(a: Account, x: Amount)
    requires
        !a.locked,
        a.held.value() >= 0,
        add_fits(a.held, x),
        sub_fits(a.hold_spec(x).0.held, x),
    ensures
        a.hold_spec(x).1 is Ok,
        a.hold_spec(x).0.release_spec(x).1 is Ok,
        a.hold_spec(x).0.release_spec(x).0.held.value() == a.held.value(),
        a.hold_spec(x).0.release_spec(x).0.total == a.total,
        !a.hold_spec(x).0.release_spec(x).0.locked,
        sub_fits(a.total, a.held) && sub_fits(
            a.hold_spec(x).0.release_spec(x).0.total,
            a.hold_spec(x).0.release_spec(x).0.held,
        ) ==> a.hold_spec(x).0.release_spec(x).0.spec_available().value()
            == a.spec_available().value(),
{
}

/// The available funds are the total minus the held funds where that is
/// positive, and zero otherwise (where the subtraction does not round).
pub proof fn lemma_available_value(a: Account)
    ensures
        a.spec_available().value() >= 0,
        sub_fits(a.total, a.held) && a.total.value() - a.held.value() > 0
            ==> a.spec_available().value() == a.total.value() - a.held.value(),
        sub_fits(a.total, a.held) && a.total.value() - a.held.value() <= 0
            ==> a.spec_available().value() == 0,
{
}

/// When an account accepts an operation: credits, holds, locks and
/// chargeback debits exactly when it is unlocked, whatever its funds; debits
/// exactly when it is unlocked and the amount is at most the available funds;
/// releases exactly when it is unlocked and the amount is at most the held
/// funds. An unlocked account refuses only with `BalanceInsufficient`.
pub proof fn lemma_acceptance(a: Account, x: Amount)
    ensures
        a.credit_spec(x).1 is Ok <==> !a.locked,
        a.hold_spec(x).1 is Ok <==> !a.locked,
        a.lock_spec().1 is Ok <==> !a.locked,
        a.debit_chargeback_spec(x).1 is Ok <==> !a.locked,
        a.debit_spec(x).1 is Ok <==> !a.locked && x.value() <= a.spec_available().value(),
        a.release_spec(x).1 is Ok <==> !a.locked && x.value() <= a.held.value(),
        !a.locked && a.debit_spec(x).1 is Err ==> a.debit_spec(x).1 == Err::<(), _>(
            AccountOperationError::BalanceInsufficient,
        ),
        !a.locked && a.release_spec(x).1 is Err ==> a.release_spec(x).1 == Err::<(), _>(
            AccountOperationError::BalanceInsufficient,
        ),
{
}

/// What an accepted operation does to the funds, where its arithmetic does
/// not round: a credit adds to the total, a debit takes from it; a hold adds
/// to the held funds, a release takes from them; a chargeback debit takes
/// from the total and locks. Nothing else changes.
pub proof fn lemma_accepted_effects(a: Account, x: Amount)
    ensures
        a.credit_spec(x).1 is Ok && add_fits(a.total, x) ==> {
            let b = a.credit_spec(x).0;
            &&& b.total.value() == a.total.value() + x.value()
            &&& b.held == a.held && b.locked == a.locked
        },
        a.debit_spec(x).1 is Ok && sub_fits(a.total, x) ==> {
            let b = a.debit_spec(x).0;
            &&& b.total.value() == a.total.value() - x.value()
            &&& b.held == a.held && b.locked == a.locked
        },
        a.hold_spec(x).1 is Ok && add_fits(a.held, x) ==> {
            let b = a.hold_spec(x).0;
            &&& b.held.value() == a.held.value() + x.value()
            &&& b.total == a.total && b.locked == a.locked
        },
        a.release_spec(x).1 is Ok && sub_fits(a.held, x) ==> {
            let b = a.release_spec(x).0;
            &&& b.held.value() == a.held.value() - x.value()
            &&& b.total == a.total && b.locked == a.locked
        },
        a.debit_chargeback_spec(x).1 is Ok && sub_fits(a.total, x) ==> {
            let b = a.debit_chargeback_spec(x).0;
            &&& b.total.value() == a.total.value() - x.value()
            &&& b.held == a.held && b.locked
        },
{
}

} // verus!
