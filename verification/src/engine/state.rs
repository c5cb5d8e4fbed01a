//! The account registry and the transaction ledger, and how a transaction
//! changes them.
use crate::amount::{add_fits, group_amount, sub_fits, Amount};
use crate::engine::balance::{arrives_normal, lemma_apply_keeps_balance, step_fits};
use crate::engine::account::{Account, AccountOperationError, AccountStep};
use crate::engine::transaction::{
    valid_transition, Transaction, TransactionState, TransactionStateInvalid,
};
use crate::format::transaction::ParsedTransaction;
use std::collections::BTreeMap;
use std::collections::HashMap;
use vstd::prelude::*;
use vstd::std_specs::btree::increasing_seq;
use vstd::std_specs::cmp::OrdSpec;
use vstd::std_specs::iter::IteratorSpec;
#[allow(unused_imports)]
use vstd::std_specs::convert::FromSpecImpl;

verus! {

broadcast use group_amount;

/// The account registry and the transaction ledger, before their invariant.
struct Books {
    /// Account registry, using BTreeMap for stable ordering
    accounts: BTreeMap<u16, Account>,
    /// Transaction registry
    ledger: HashMap<u32, Transaction>,
}

/// Why a transaction was refused.
#[derive(Debug, Clone, Copy, PartialEq, Eq, Structural)]
pub enum TransactionOperationError {
    DuplicateTransaction,
    InvalidTransaction,
    InvalidDispute,
    /// The transaction state change has failed
    TransactionError(TransactionStateInvalid),
    /// An error has ocurred during account state transition
    AccountError(AccountOperationError),
}

impl From<TransactionStateInvalid> for TransactionOperationError {
    fn from(value: TransactionStateInvalid) -> (r: Self)
        ensures
            r == TransactionOperationError::TransactionError(value),
    {
        Self::TransactionError(value)
    }
}

impl FromSpecImpl<TransactionStateInvalid> for TransactionOperationError {
    open spec fn obeys_from_spec() -> bool {
        true
    }

    open spec fn from_spec(v: TransactionStateInvalid) -> Self {
        TransactionOperationError::TransactionError(v)
    }
}

impl From<AccountOperationError> for TransactionOperationError {
    fn from(value: AccountOperationError) -> (r: Self)
        ensures
            r == TransactionOperationError::AccountError(value),
    {
        Self::AccountError(value)
    }
}

impl FromSpecImpl<AccountOperationError> for TransactionOperationError {
    open spec fn obeys_from_spec() -> bool {
        true
    }

    open spec fn from_spec(v: AccountOperationError) -> Self {
        TransactionOperationError::AccountError(v)
    }
}

/// The contents of an [`AccountState`]: accounts by client, transactions by id.
pub struct StateView {
    pub accounts: Map<u16, Account>,
    pub ledger: Map<u32, Transaction>,
}

/// The outcome of applying a transaction.
pub type ApplyResult = Result<(), TransactionOperationError>;

impl StateView {
    /// Every recorded transaction is a deposit or a withdrawal, and its
    /// client has an account.
    pub open spec fn wf(self) -> bool {
        forall|id: u32| #[trigger]
            self.ledger.contains_key(id) ==> {
                let t = self.ledger[id].tx;
                &&& (t is Deposit || t is Withdrawal)
                &&& self.accounts.contains_key(t.client())
            }
    }

    /// The account of `client`, or a new one where there is none.
    pub open spec fn account_or_default(self, client: u16) -> Account {
        if self.accounts.contains_key(client) {
            self.accounts[client]
        } else {
            Account::spec_default()
        }
    }
}

/// What a dispute (`kind` is `Disputed`), resolution (`Normal`) or chargeback
/// (`ChargedBack`) does to the account of the deposit it refers to: hold the
/// amount; release it; or release it and then debit it, locking the account.
pub open spec fn settle_account_spec(a: Account, amount: Amount, kind: TransactionState) -> AccountStep {
    match kind {
        TransactionState::Disputed => a.hold_spec(amount),
        TransactionState::Normal => a.release_spec(amount),
        TransactionState::ChargedBack => {
            let (a1, r1) = a.release_spec(amount);
            match r1 {
                Err(e) => (a1, Err(e)),
                Ok(()) => a1.debit_chargeback_spec(amount),
            }
        },
    }
}

/// The account step of [`settle_account_spec`] runs without overflow.
pub open spec fn settle_account_defined(a: Account, amount: Amount, kind: TransactionState) -> bool {
    match kind {
        TransactionState::Disputed => a.hold_defined(amount),
        TransactionState::Normal => a.release_defined(amount),
        TransactionState::ChargedBack => {
            &&& a.release_defined(amount)
            &&& a.release_spec(amount).1 is Ok ==> a.release_spec(amount).0.debit_chargeback_defined(
                amount,
            )
        },
    }
}

/// A dispute, resolution or chargeback by `client` of transaction `id`.
/// An unknown id is ignored. Only a deposit of the same client can be
/// disputed; the deposit's state must allow the move to `kind`; the account
/// must accept the step. Only then are the deposit's new state and the
/// account's new balances recorded; any refusal changes nothing.
pub open spec fn settle_spec(v: StateView, client: u16, id: u32, kind: TransactionState) -> (
    StateView,
    ApplyResult,
) {
    if !v.ledger.contains_key(id) {
        (v, Ok(()))
    } else {
        let disputed = v.ledger[id];
        match disputed.tx {
            ParsedTransaction::Deposit { client: d_client, amount, .. } => {
                if client != d_client {
                    (v, Err(TransactionOperationError::InvalidDispute))
                } else {
                    let (t, tr) = disputed.move_to(kind);
                    match tr {
                        Err(e) => (v, Err(TransactionOperationError::TransactionError(e))),
                        Ok(()) => {
                            let (a, r) = settle_account_spec(v.accounts[client], amount, kind);
                            match r {
                                Ok(()) => (
                                    StateView {
                                        accounts: v.accounts.insert(client, a),
                                        ledger: v.ledger.insert(id, t),
                                    },
                                    Ok(()),
                                ),
                                Err(e) => (v, Err(TransactionOperationError::AccountError(e))),
                            }
                        },
                    }
                }
            },
            _ => (v, Err(TransactionOperationError::InvalidTransaction)),
        }
    }
}

/// [`settle_spec`] runs without overflow.
pub open spec fn settle_defined(v: StateView, client: u16, id: u32, kind: TransactionState) -> bool {
    v.ledger.contains_key(id) ==> match v.ledger[id].tx {
        ParsedTransaction::Deposit { client: d_client, amount, .. } => {
            client == d_client && v.ledger[id].move_to(kind).1 is Ok ==> {
                &&& v.accounts.contains_key(client)
                &&& settle_account_defined(v.accounts[client], amount, kind)
            }
        },
        _ => true,
    }
}

/// A deposit or withdrawal with a fresh id: the client's account is created
/// if missing, then credited or debited; the transaction is recorded only if
/// the account accepted it, as it was handed in.
pub open spec fn record_spec(
    v: StateView,
    client: u16,
    id: u32,
    step: AccountStep,
    tx: Transaction,
) -> (StateView, ApplyResult) {
    let accounts = v.accounts.insert(client, step.0);
    match step.1 {
        Ok(()) => (StateView { accounts, ledger: v.ledger.insert(id, tx) }, Ok(())),
        Err(e) => (
            StateView { accounts, ledger: v.ledger },
            Err(TransactionOperationError::AccountError(e)),
        ),
    }
}

/// The state after applying `tx`, and the outcome.
pub open spec fn apply_spec(v: StateView, tx: Transaction) -> (StateView, ApplyResult) {
    match tx.tx {
        ParsedTransaction::Deposit { client, id, amount } => {
            if v.ledger.contains_key(id) {
                (v, Err(TransactionOperationError::DuplicateTransaction))
            } else {
                record_spec(v, client, id, v.account_or_default(client).credit_spec(amount), tx)
            }
        },
        ParsedTransaction::Withdrawal { client, id, amount } => {
            if v.ledger.contains_key(id) {
                (v, Err(TransactionOperationError::DuplicateTransaction))
            } else {
                record_spec(v, client, id, v.account_or_default(client).debit_spec(amount), tx)
            }
        },
        ParsedTransaction::Dispute { client, id } => settle_spec(
            v,
            client,
            id,
            TransactionState::Disputed,
        ),
        ParsedTransaction::Resolve { client, id } => settle_spec(
            v,
            client,
            id,
            TransactionState::Normal,
        ),
        ParsedTransaction::Chargeback { client, id } => settle_spec(
            v,
            client,
            id,
            TransactionState::ChargedBack,
        ),
    }
}

/// Applying `tx` runs without overflow of the amounts it adds or subtracts.
pub open spec fn apply_defined(v: StateView, tx: Transaction) -> bool {
    match tx.tx {
        ParsedTransaction::Deposit { client, id, amount } => !v.ledger.contains_key(id)
            ==> v.account_or_default(client).credit_defined(amount),
        ParsedTransaction::Withdrawal { client, id, amount } => !v.ledger.contains_key(id)
            ==> v.account_or_default(client).debit_defined(amount),
        ParsedTransaction::Dispute { client, id } => settle_defined(
            v,
            client,
            id,
            TransactionState::Disputed,
        ),
        ParsedTransaction::Resolve { client, id } => settle_defined(
            v,
            client,
            id,
            TransactionState::Normal,
        ),
        ParsedTransaction::Chargeback { client, id } => settle_defined(
            v,
            client,
            id,
            TransactionState::ChargedBack,
        ),
    }
}

/// Where no rounding occurs, how an accepted dispute (`kind` is `Disputed`),
/// resolution (`Normal`) or chargeback (`ChargedBack`) of a recorded deposit
/// moves its client's funds: the held funds grow, or shrink, by the deposit's
/// amount; a chargeback also takes the amount from the total.
pub open spec fn settle_moves_funds(
    v: StateView,
    client: u16,
    id: u32,
    kind: TransactionState,
    w: StateView,
    r: ApplyResult,
) -> bool {
    r is Ok && v.ledger.contains_key(id) ==> {
        let amount = v.ledger[id].tx.amount();
        let a = v.accounts[client];
        let b = w.accounts[client];
        match kind {
            TransactionState::Disputed => add_fits(a.held, amount) ==> b.held.value()
                == a.held.value() + amount.value(),
            TransactionState::Normal => sub_fits(a.held, amount) ==> b.held.value()
                == a.held.value() - amount.value(),
            TransactionState::ChargedBack => {
                &&& sub_fits(a.held, amount) ==> b.held.value() == a.held.value() - amount.value()
                &&& sub_fits(a.total, amount) ==> b.total.value() == a.total.value()
                    - amount.value()
            },
        }
    }
}

/// Where no rounding occurs, how an accepted transaction moves its client's
/// funds: a deposit adds its amount to the total; a withdrawal, of at most the
/// available funds, takes it from the total; disputes, resolutions and
/// chargebacks as [`settle_moves_funds`] says.
pub open spec fn apply_moves_funds(v: StateView, tx: Transaction, w: StateView, r: ApplyResult) -> bool {
    let a = v.account_or_default(tx.tx.client());
    let b = w.accounts[tx.tx.client()];
    match tx.tx {
        ParsedTransaction::Deposit { amount, .. } => r is Ok && add_fits(a.total, amount)
            ==> b.total.value() == a.total.value() + amount.value(),
        ParsedTransaction::Withdrawal { amount, .. } => r is Ok ==> {
            &&& amount.value() <= a.spec_available().value()
            &&& sub_fits(a.total, amount) ==> b.total.value() == a.total.value() - amount.value()
        },
        ParsedTransaction::Dispute { client, id } => settle_moves_funds(
            v,
            client,
            id,
            TransactionState::Disputed,
            w,
            r,
        ),
        ParsedTransaction::Resolve { client, id } => settle_moves_funds(
            v,
            client,
            id,
            TransactionState::Normal,
            w,
            r,
        ),
        ParsedTransaction::Chargeback { client, id } => settle_moves_funds(
            v,
            client,
            id,
            TransactionState::ChargedBack,
            w,
            r,
        ),
    }
}

/// The registry of accounts and the ledger of transactions.
pub struct AccountState {
    books: Books,
}

impl View for AccountState {
    type V = StateView;

    closed spec fn view(&self) -> StateView {
        self.books@
    }
}

impl AccountState {
    #[verifier::type_invariant]
    closed spec fn inv(self) -> bool {
        self.books@.wf()
    }

    /// An empty registry and ledger.
    pub fn new() -> (r: Self)
        ensures
            r@.wf(),
            r@.balanced(),
            r@.accounts == Map::<u16, Account>::empty(),
            r@.ledger == Map::<u32, Transaction>::empty(),
    {
        AccountState { books: Books::new() }
    }

    /// Every account with its client, in increasing client order.
    pub fn all_accounts(&self) -> (r: Vec<(u16, Account)>)
        ensures
            r@.len() == self@.accounts.dom().len(),
            forall|i: int|
                #![trigger r@[i]]
                0 <= i < r@.len() ==> self@.accounts.contains_key(r@[i].0) && self@.accounts[r@[i].0]
                    == r@[i].1,
            forall|c: u16| #[trigger]
                self@.accounts.contains_key(c) ==> exists|i: int|
                    0 <= i < r@.len() && #[trigger] r@[i].0 == c,
            forall|i: int, j: int| 0 <= i < j < r@.len() ==> r@[i].0 < r@[j].0,
    {
        self.books.all_accounts()
    }

    /// The account of `client`, if it has one.
    pub fn get_account(&self, client: u16) -> (r: Option<&Account>)
        ensures
            r is Some <==> self@.accounts.contains_key(client),
            r matches Some(a) ==> *a == self@.accounts[client],
    {
        self.books.get_account(client)
    }

    /// The recorded transaction `id`, if there is one.
    pub fn get_transaction(&self, id: u32) -> (r: Option<&Transaction>)
        ensures
            r is Some <==> self@.ledger.contains_key(id),
            r matches Some(t) ==> *t == self@.ledger[id],
    {
        self.books.get_transaction(id)
    }

    /// Applies one transaction.
    pub fn apply_transaction(&mut self, tx: Transaction) -> (r: Result<(), TransactionOperationError>)
        requires
            apply_defined(old(self)@, tx),
        ensures
            (final(self)@, r) == apply_spec(old(self)@, tx),
            final(self)@.wf(),
            apply_moves_funds(old(self)@, tx, final(self)@, r),
            old(self)@.balanced() && arrives_normal(tx) && step_fits(old(self)@, tx)
                ==> final(self)@.balanced(),
    {
        proof {
            use_type_invariant(&*self);
        }
        let mut books = Books::new();
        std::mem::swap(&mut self.books, &mut books);
        let r = books.apply_transaction(tx);
        std::mem::swap(&mut self.books, &mut books);
        r
    }

    /// Whether applying `tx` runs without overflow of the amounts it adds or subtracts.
    pub fn can_apply(&self, tx: &Transaction) -> (b: bool)
        ensures
            b == apply_defined(self@, *tx),
    {
        proof {
            use_type_invariant(self);
        }
        self.books.can_apply(tx)
    }

    /// Applies `tx` where that runs without overflow; `None`, and no change,
    /// where an amount would overflow.
    pub fn try_apply_transaction(&mut self, tx: Transaction) -> (r: Option<
        Result<(), TransactionOperationError>,
    >)
        ensures
            final(self)@.wf(),
            r is None <==> !apply_defined(old(self)@, tx),
            r is None ==> final(self)@ == old(self)@,
            r matches Some(res) ==> (final(self)@, res) == apply_spec(old(self)@, tx),
            r matches Some(res) ==> apply_moves_funds(old(self)@, tx, final(self)@, res),
            r is Some && old(self)@.balanced() && arrives_normal(tx) && step_fits(old(self)@, tx)
                ==> final(self)@.balanced(),
    {
        proof {
            use_type_invariant(&*self);
        }
        if self.can_apply(&tx) {
            Some(self.apply_transaction(tx))
        } else {
            None
        }
    }
}

impl View for Books {
    type V = StateView;

    closed spec fn view(&self) -> StateView {
        StateView { accounts: self.accounts@, ledger: self.ledger@ }
    }
}

impl Books {
    /// An empty registry and ledger.
    fn new() -> (r: Self)
        ensures
            r@.wf(),
            r@.balanced(),
            r@.accounts == Map::<u16, Account>::empty(),
            r@.ledger == Map::<u32, Transaction>::empty(),
    {
        Books { accounts: BTreeMap::new(), ledger: HashMap::new() }
    }

    /// Every account with its client, in increasing client order.
    fn all_accounts(&self) -> (r: Vec<(u16, Account)>)
        ensures
            r@.len() == self@.accounts.dom().len(),
            forall|i: int|
                #![trigger r@[i]]
                0 <= i < r@.len() ==> self@.accounts.contains_key(r@[i].0) && self@.accounts[r@[i].0]
                    == r@[i].1,
            forall|c: u16| #[trigger]
                self@.accounts.contains_key(c) ==> exists|i: int|
                    0 <= i < r@.len() && #[trigger] r@[i].0 == c,
            forall|i: int, j: int| 0 <= i < j < r@.len() ==> r@[i].0 < r@[j].0,
    {
        let mut out: Vec<(u16, Account)> = Vec::new();
        let iter = self.accounts.iter();
        let ghost rem = iter.remaining();
        proof {
            let keys = rem.map_values(|kv: (&u16, &Account)| *kv.0);
            assert(increasing_seq(keys));
            assert forall|i: int, j: int| 0 <= i < j < rem.len() implies *rem[i].0 < *rem[j].0 by {
                assert(keys[i].cmp_spec(&keys[j]) is Less);
            }
        }
        for kv in it: iter
            invariant
                it.seq() == rem,
                rem.len() == self@.accounts.dom().len(),
                forall|i: int, j: int| 0 <= i < j < rem.len() ==> *rem[i].0 < *rem[j].0,
                forall|c: u16| #[trigger]
                    self@.accounts.contains_key(c) ==> rem.contains((&c, &self@.accounts[c])),
                forall|i: int|
                    0 <= i < rem.len() ==> self@.accounts.contains_key(*rem[i].0)
                        && self@.accounts[*rem[i].0] == *rem[i].1,
                out@.len() == it.index(),
                forall|j: int|
                    0 <= j < it.index() ==> #[trigger] out@[j] == (*it.seq()[j].0, *it.seq()[j].1),
        {
            out.push((*kv.0, *kv.1));
        }
        proof {
            assert forall|c: u16| #[trigger] self@.accounts.contains_key(c) implies exists|i: int|
                0 <= i < out@.len() && #[trigger] out@[i].0 == c by {
                let i = choose|i: int| 0 <= i < rem.len() && rem[i] == (&c, &self@.accounts[c]);
                assert(out@[i].0 == c);
            }
        }
        out
    }

    /// The account of `client`, if it has one.
    fn get_account(&self, client: u16) -> (r: Option<&Account>)
        ensures
            r is Some <==> self@.accounts.contains_key(client),
            r matches Some(a) ==> *a == self@.accounts[client],
    {
        self.accounts.get(&client)
    }

    /// The recorded transaction `id`, if there is one.
    fn get_transaction(&self, id: u32) -> (r: Option<&Transaction>)
        ensures
            r is Some <==> self@.ledger.contains_key(id),
            r matches Some(t) ==> *t == self@.ledger[id],
    {
        self.ledger.get(&id)
    }

    /// The account of `client`, created if missing.
    fn get_or_insert_account(&mut self, client: u16) -> (a: Account)
        requires
            old(self)@.wf(),
        ensures
            final(self)@.wf(),
            a == old(self)@.account_or_default(client),
            final(self)@.accounts == old(self)@.accounts.insert(client, a),
            final(self)@.ledger == old(self)@.ledger,
    {
        let a = match self.accounts.get(&client) {
            Some(a) => *a,
            None => Account::default(),
        };
        self.accounts.insert(client, a);
        a
    }

    /// Applies one transaction.
    fn apply_transaction(&mut self, tx: Transaction) -> (r: Result<(), TransactionOperationError>)
        requires
            old(self)@.wf(),
            apply_defined(old(self)@, tx),
        ensures
            (final(self)@, r) == apply_spec(old(self)@, tx),
            final(self)@.wf(),
            apply_moves_funds(old(self)@, tx, final(self)@, r),
            old(self)@.balanced() && arrives_normal(tx) && step_fits(old(self)@, tx)
                ==> final(self)@.balanced(),
    {
        let ghost v0 = self@;
        proof {
            if v0.balanced() && arrives_normal(tx) && step_fits(v0, tx) {
                lemma_apply_keeps_balance(v0, tx);
            }
        }
        match tx.tx {
            ParsedTransaction::Deposit { client, id, amount } => {
                if self.ledger.contains_key(&id) {
                    return Err(TransactionOperationError::DuplicateTransaction);
                }
                let mut account = self.get_or_insert_account(client);
                let res = account.credit_amount(&amount);
                self.accounts.insert(client, account);
                assert(self@.accounts =~= v0.accounts.insert(client, account));
                if let Err(e) = res {
                    return Err(TransactionOperationError::AccountError(e));
                }
                self.ledger.insert(id, tx);
                Ok(())
            },
            ParsedTransaction::Withdrawal { client, id, amount } => {
                if self.ledger.contains_key(&id) {
                    return Err(TransactionOperationError::DuplicateTransaction);
                }
                let mut account = self.get_or_insert_account(client);
                let res = account.debit_amount(&amount);
                self.accounts.insert(client, account);
                assert(self@.accounts =~= v0.accounts.insert(client, account));
                if let Err(e) = res {
                    return Err(TransactionOperationError::AccountError(e));
                }
                self.ledger.insert(id, tx);
                Ok(())
            },
            ParsedTransaction::Dispute { client, id } => self.settle(
                client,
                id,
                TransactionState::Disputed,
            ),
            ParsedTransaction::Resolve { client, id } => self.settle(
                client,
                id,
                TransactionState::Normal,
            ),
            ParsedTransaction::Chargeback { client, id } => self.settle(
                client,
                id,
                TransactionState::ChargedBack,
            ),
        }
    }

    /// A dispute (`kind` is `Disputed`), resolution (`Normal`) or chargeback
    /// (`ChargedBack`) by `client` of transaction `id`.
    fn settle(&mut self, client: u16, id: u32, kind: TransactionState) -> (r: Result<
        (),
        TransactionOperationError,
    >)
        requires
            old(self)@.wf(),
            settle_defined(old(self)@, client, id, kind),
        ensures
            (final(self)@, r) == settle_spec(old(self)@, client, id, kind),
            final(self)@.wf(),
            settle_moves_funds(old(self)@, client, id, kind, final(self)@, r),
    {
        let mut disputed = match self.ledger.get(&id) {
            None => { return Ok(()) },
            Some(t) => *t,
        };
        match disputed.tx {
            ParsedTransaction::Deposit { client: d_client, amount, .. } => {
                if client != d_client {
                    return Err(TransactionOperationError::InvalidDispute);
                }
                let tr = match kind {
                    TransactionState::Disputed => disputed.dispute(),
                    TransactionState::Normal => disputed.resolve(),
                    TransactionState::ChargedBack => disputed.chargeback(),
                };
                if let Err(e) = tr {
                    return Err(TransactionOperationError::TransactionError(e));
                }
                let mut account = *self.accounts.get(&client).unwrap();
                let res = match kind {
                    TransactionState::Disputed => account.hold_amount(&amount),
                    TransactionState::Normal => account.release_amount(&amount),
                    TransactionState::ChargedBack => {
                        match account.release_amount(&amount) {
                            Err(e) => Err(e),
                            Ok(()) => account.debit_chargeback(&amount),
                        }
                    },
                };
                match res {
                    Err(e) => Err(TransactionOperationError::AccountError(e)),
                    Ok(()) => {
                        self.ledger.insert(id, disputed);
                        self.accounts.insert(client, account);
                        Ok(())
                    },
                }
            },
            _ => Err(TransactionOperationError::InvalidTransaction),
        }
    }
}


impl Books {
    /// The account of `client`, or a new one where there is none.
    fn account_or_default(&self, client: u16) -> (a: Account)
        ensures
            a == self@.account_or_default(client),
    {
        match self.accounts.get(&client) {
            Some(a) => *a,
            None => Account::default(),
        }
    }

    /// Whether applying `tx` runs without overflow of the amounts it adds or subtracts.
    fn can_apply(&self, tx: &Transaction) -> (b: bool)
        requires
            self@.wf(),
        ensures
            b == apply_defined(self@, *tx),
    {
        match tx.tx {
            ParsedTransaction::Deposit { client, id, amount } => {
                if self.ledger.contains_key(&id) {
                    return true;
                }
                let account = self.account_or_default(client);
                account.locked || account.total.checked_add(&amount).is_some()
            },
            ParsedTransaction::Withdrawal { client, id, amount } => {
                if self.ledger.contains_key(&id) {
                    return true;
                }
                let account = self.account_or_default(client);
                if account.locked {
                    return true;
                }
                match account.total.checked_sub(&account.held) {
                    None => false,
                    Some(_) => {
                        let available = account.available();
                        amount.gt(&available) || account.total.checked_sub(&amount).is_some()
                    },
                }
            },
            ParsedTransaction::Dispute { client, id } => self.can_settle(
                client,
                id,
                TransactionState::Disputed,
            ),
            ParsedTransaction::Resolve { client, id } => self.can_settle(
                client,
                id,
                TransactionState::Normal,
            ),
            ParsedTransaction::Chargeback { client, id } => self.can_settle(
                client,
                id,
                TransactionState::ChargedBack,
            ),
        }
    }

    /// Whether a dispute, resolution or chargeback runs without overflow.
    fn can_settle(&self, client: u16, id: u32, kind: TransactionState) -> (b: bool)
        requires
            self@.wf(),
        ensures
            b == settle_defined(self@, client, id, kind),
    {
        let t = match self.ledger.get(&id) {
            None => { return true },
            Some(t) => *t,
        };
        match t.tx {
            ParsedTransaction::Deposit { client: d_client, amount, .. } => {
                if client != d_client || !t.valid_state_transition(kind) {
                    return true;
                }
                let account = *self.accounts.get(&client).unwrap();
                match kind {
                    TransactionState::Disputed => account.locked || account.held.checked_add(
                        &amount,
                    ).is_some(),
                    TransactionState::Normal => account.locked || amount.gt(&account.held)
                        || account.held.checked_sub(&amount).is_some(),
                    TransactionState::ChargedBack => {
                        if account.locked || amount.gt(&account.held) {
                            return true;
                        }
                        account.held.checked_sub(&amount).is_some() && account.total.checked_sub(
                            &amount,
                        ).is_some()
                    },
                }
            },
            _ => true,
        }
    }
}


/// Applying a transaction keeps the state well formed: every recorded
/// transaction is a deposit or a withdrawal whose client has an account.
pub proof fn lemma_apply_preserves_wf(v: StateView, tx: Transaction)
    requires
        v.wf(),
    ensures
        apply_spec(v, tx).0.wf(),
{
    let w = apply_spec(v, tx).0;
    assert forall|id: u32| #[trigger] w.ledger.contains_key(id) implies {
        let t = w.ledger[id].tx;
        &&& (t is Deposit || t is Withdrawal)
        &&& w.accounts.contains_key(t.client())
    } by {
        if v.ledger.contains_key(id) {
            assert(v.accounts.contains_key(v.ledger[id].tx.client()));
        }
    }
}

/// The ledger only grows: a recorded transaction stays recorded and its
/// parsed contents (kind, client, id, amount) never change; in particular a
/// transaction id is never recorded twice.
pub proof fn lemma_ledger_entries_are_permanent(v: StateView, tx: Transaction, id: u32)
    requires
        v.ledger.contains_key(id),
    ensures
        apply_spec(v, tx).0.ledger.contains_key(id),
        apply_spec(v, tx).0.ledger[id].tx == v.ledger[id].tx,
{
}

/// A transaction newly recorded is the one applied, and it is recorded only
/// when it was accepted.
pub proof fn lemma_new_ledger_entries(v: StateView, tx: Transaction, id: u32)
    requires
        !v.ledger.contains_key(id),
        apply_spec(v, tx).0.ledger.contains_key(id),
    ensures
        apply_spec(v, tx).0.ledger[id] == tx,
        apply_spec(v, tx).1 is Ok,
        tx.tx is Deposit || tx.tx is Withdrawal,
        tx.tx.id() == id,
{
}

/// A recorded transaction's dispute state changes only along the allowed
/// transitions (normal to disputed, disputed to normal or charged back); so a
/// charged-back transaction stays charged back.
pub proof fn lemma_ledger_states_follow_transitions(v: StateView, tx: Transaction, id: u32)
    requires
        v.ledger.contains_key(id),
    ensures
        apply_spec(v, tx).0.ledger[id].state == v.ledger[id].state || valid_transition(
            v.ledger[id].state,
            apply_spec(v, tx).0.ledger[id].state,
        ),
        v.ledger[id].state == TransactionState::ChargedBack ==> apply_spec(v, tx).0.ledger[id].state
            == TransactionState::ChargedBack,
{
}

/// Accounts are never removed; only the account of the transaction's client
/// may be created or changed; a locked account never changes again.
pub proof fn lemma_account_frames(v: StateView, tx: Transaction, c: u16)
    requires
        v.wf(),
    ensures
        v.accounts.contains_key(c) ==> apply_spec(v, tx).0.accounts.contains_key(c),
        c != tx.tx.client() ==> apply_spec(v, tx).0.accounts.contains_key(c)
            == v.accounts.contains_key(c),
        c != tx.tx.client() && v.accounts.contains_key(c) ==> apply_spec(v, tx).0.accounts[c]
            == v.accounts[c],
        v.accounts.contains_key(c) && v.accounts[c].locked ==> apply_spec(v, tx).0.accounts[c]
            == v.accounts[c],
{
}

/// Only a chargeback locks an account, and a chargeback of a recorded
/// transaction that is accepted locks its client's account and marks the
/// transaction charged back.
pub proof fn lemma_only_chargebacks_lock(v: StateView, tx: Transaction, c: u16)
    requires
        v.wf(),
    ensures
        v.accounts.contains_key(c) && !v.accounts[c].locked && apply_spec(v, tx).0.accounts[c].locked
            ==> tx.tx is Chargeback,
        !v.accounts.contains_key(c) && apply_spec(v, tx).0.accounts.contains_key(c)
            ==> !apply_spec(v, tx).0.accounts[c].locked,
        tx.tx is Chargeback && v.ledger.contains_key(tx.tx.id()) && apply_spec(v, tx).1 is Ok
            ==> {
            &&& apply_spec(v, tx).0.accounts[tx.tx.client()].locked
            &&& apply_spec(v, tx).0.ledger[tx.tx.id()].state == TransactionState::ChargedBack
        },
{
}

/// A refused transaction changes nothing: the ledger, including every
/// transaction's dispute state, and every existing account stay as they were.
/// The one change a refusal may leave is a new, empty account for the client
/// of a refused deposit or withdrawal. Refusals other than an account's
/// (duplicate ids, disputes of another client's transaction or of a
/// withdrawal, disallowed state changes) change nothing at all.
pub proof fn lemma_refusals_change_nothing(v: StateView, tx: Transaction)
    ensures
        apply_spec(v, tx).1 matches Err(e) && !(e is AccountError) ==> apply_spec(v, tx).0 == v,
        apply_spec(v, tx).1 is Err ==> {
            let w = apply_spec(v, tx).0;
            &&& w.ledger == v.ledger
            &&& w.accounts == v.accounts || {
                &&& tx.tx is Deposit || tx.tx is Withdrawal
                &&& !v.accounts.contains_key(tx.tx.client())
                &&& w.accounts == v.accounts.insert(tx.tx.client(), Account::spec_default())
            }
        },
{
    let w = apply_spec(v, tx).0;
    let c = tx.tx.client();
    if apply_spec(v, tx).1 is Err && (tx.tx is Deposit || tx.tx is Withdrawal) && v.accounts.contains_key(c) {
        assert(w.accounts =~= v.accounts);
    }
}

/// A deposit or withdrawal whose id is already recorded is refused as a
/// duplicate; a dispute, resolution or chargeback of an unknown id is ignored.
pub proof fn lemma_duplicates_and_unknown_ids(v: StateView, tx: Transaction)
    ensures
        (tx.tx is Deposit || tx.tx is Withdrawal) && v.ledger.contains_key(tx.tx.id())
            ==> apply_spec(v, tx) == (v, Err::<(), _>(TransactionOperationError::DuplicateTransaction)),
        !(tx.tx is Deposit || tx.tx is Withdrawal) && !v.ledger.contains_key(tx.tx.id())
            ==> apply_spec(v, tx) == (v, Ok::<(), TransactionOperationError>(())),
{
}

/// Disputes, resolutions and chargebacks must be tagged with the client of the
/// deposit they refer to, and withdrawals cannot be disputed at all.
pub proof fn lemma_disputes_only_own_deposits(v: StateView, tx: Transaction)
    requires
        !(tx.tx is Deposit || tx.tx is Withdrawal),
        v.ledger.contains_key(tx.tx.id()),
    ensures
        v.ledger[tx.tx.id()].tx is Withdrawal ==> apply_spec(v, tx) == (v, Err::<(), _>(
            TransactionOperationError::InvalidTransaction,
        )),
        v.ledger[tx.tx.id()].tx is Deposit && v.ledger[tx.tx.id()].tx.client() != tx.tx.client()
            ==> apply_spec(v, tx) == (v, Err::<(), _>(TransactionOperationError::InvalidDispute)),
{
}

/// A deposit or withdrawal with a fresh id, from a client whose account is
/// unlocked or missing: a deposit is always accepted, whatever the funds
/// held; a withdrawal exactly when its amount is at most the available funds.
/// An accepted one is recorded and, where the arithmetic does not round, moves
/// its amount into or out of the total, leaving the held funds and the lock.
pub proof fn lemma_fresh_deposits_and_withdrawals(v: StateView, tx: Transaction)
    requires
        tx.tx is Deposit || tx.tx is Withdrawal,
        !v.ledger.contains_key(tx.tx.id()),
        !v.account_or_default(tx.tx.client()).locked,
    ensures
        ({
            let (w, r) = apply_spec(v, tx);
            let c = tx.tx.client();
            let a = v.account_or_default(c);
            let x = tx.tx.amount();
            &&& tx.tx is Deposit ==> r is Ok
            &&& tx.tx is Withdrawal ==> (r is Ok <==> x.value() <= a.spec_available().value())
            &&& r is Ok ==> {
                &&& w.ledger.contains_key(tx.tx.id())
                &&& w.ledger[tx.tx.id()] == tx
                &&& w.accounts.contains_key(c)
                &&& w.accounts[c].held == a.held
                &&& !w.accounts[c].locked
                &&& tx.tx is Deposit && add_fits(a.total, x) ==> w.accounts[c].total.value()
                    == a.total.value() + x.value()
                &&& tx.tx is Withdrawal && sub_fits(a.total, x) ==> w.accounts[c].total.value()
                    == a.total.value() - x.value()
            }
        }),
{
}

/// A dispute, resolution or chargeback by the client of a recorded deposit,
/// on its unlocked account: a dispute is accepted exactly when the deposit is
/// normal, whatever the funds already held; a resolution or a chargeback
/// exactly when the deposit is disputed and its amount is at most the held
/// funds. Accepted, the deposit moves to disputed, normal or charged back;
/// where the arithmetic does not round, a dispute adds the amount to the held
/// funds, a resolution takes it from them, and a chargeback takes it from both
/// the held funds and the total and locks the account.
pub proof fn lemma_own_deposit_disputes(v: StateView, tx: Transaction)
    requires
        v.wf(),
        !(tx.tx is Deposit || tx.tx is Withdrawal),
        v.ledger.contains_key(tx.tx.id()),
        v.ledger[tx.tx.id()].tx is Deposit,
        v.ledger[tx.tx.id()].tx.client() == tx.tx.client(),
        !v.accounts[tx.tx.client()].locked,
    ensures
        ({
            let (w, r) = apply_spec(v, tx);
            let id = tx.tx.id();
            let c = tx.tx.client();
            let d = v.ledger[id];
            let a = v.accounts[c];
            let x = d.tx.amount();
            &&& tx.tx is Dispute ==> (r is Ok <==> d.state == TransactionState::Normal)
            &&& tx.tx is Resolve ==> (r is Ok <==> d.state == TransactionState::Disputed
                && x.value() <= a.held.value())
            &&& tx.tx is Chargeback ==> (r is Ok <==> d.state == TransactionState::Disputed
                && x.value() <= a.held.value())
            &&& r is Ok ==> {
                &&& w.ledger[id].tx == d.tx
                &&& tx.tx is Dispute ==> w.ledger[id].state == TransactionState::Disputed
                &&& tx.tx is Resolve ==> w.ledger[id].state == TransactionState::Normal
                &&& tx.tx is Chargeback ==> w.ledger[id].state == TransactionState::ChargedBack
                &&& tx.tx is Dispute ==> w.accounts[c].total == a.total && !w.accounts[c].locked
                &&& tx.tx is Dispute && add_fits(a.held, x) ==> w.accounts[c].held.value()
                    == a.held.value() + x.value()
                &&& tx.tx is Resolve ==> w.accounts[c].total == a.total && !w.accounts[c].locked
                &&& tx.tx is Resolve && sub_fits(a.held, x) ==> w.accounts[c].held.value()
                    == a.held.value() - x.value()
                &&& tx.tx is Chargeback ==> w.accounts[c].locked
                &&& tx.tx is Chargeback && sub_fits(a.held, x) ==> w.accounts[c].held.value()
                    == a.held.value() - x.value()
                &&& tx.tx is Chargeback && sub_fits(a.total, x) ==> w.accounts[c].total.value()
                    == a.total.value() - x.value()
            }
        }),
{
}

/// Why a transaction is refused: a fresh deposit or withdrawal on a locked
/// account with `AccountLocked`, a withdrawal beyond the available funds with
/// `BalanceInsufficient`; a dispute, resolution or chargeback of the client's
/// own deposit whose state does not allow it with a `TransactionError`, and
/// otherwise, on a locked account, with `AccountLocked`, and on an unlocked
/// one (a resolution or chargeback beyond the held funds) with
/// `BalanceInsufficient`.
pub proof fn lemma_refusal_reasons(v: StateView, tx: Transaction)
    requires
        v.wf(),
    ensures
        ({
            let r = apply_spec(v, tx).1;
            let c = tx.tx.client();
            let id = tx.tx.id();
            &&& (tx.tx is Deposit || tx.tx is Withdrawal) && !v.ledger.contains_key(id)
                && v.account_or_default(c).locked ==> r == Err::<(), _>(
                TransactionOperationError::AccountError(AccountOperationError::AccountLocked),
            )
            &&& tx.tx is Withdrawal && !v.ledger.contains_key(id) && !v.account_or_default(
                c,
            ).locked && tx.tx.amount().value() > v.account_or_default(c).spec_available().value()
                ==> r == Err::<(), _>(
                TransactionOperationError::AccountError(AccountOperationError::BalanceInsufficient),
            )
            &&& !(tx.tx is Deposit || tx.tx is Withdrawal) && v.ledger.contains_key(id)
                && v.ledger[id].tx is Deposit && v.ledger[id].tx.client() == c ==> {
                let d = v.ledger[id];
                let kind = if tx.tx is Dispute {
                    TransactionState::Disputed
                } else if tx.tx is Resolve {
                    TransactionState::Normal
                } else {
                    TransactionState::ChargedBack
                };
                &&& !valid_transition(d.state, kind) ==> r == Err::<(), _>(
                    TransactionOperationError::TransactionError(TransactionStateInvalid),
                )
                &&& valid_transition(d.state, kind) && v.accounts[c].locked ==> r == Err::<
                    (),
                    _,
                >(TransactionOperationError::AccountError(AccountOperationError::AccountLocked))
                &&& valid_transition(d.state, kind) && !v.accounts[c].locked && r is Err
                    ==> r == Err::<(), _>(
                    TransactionOperationError::AccountError(
                        AccountOperationError::BalanceInsufficient,
                    ),
                )
            }
        }),
{
}

} // verus!
