//! A recorded transaction and the dispute life cycle it goes through.
use crate::format::transaction::ParsedTransaction;
#[allow(unused_imports)]
use vstd::std_specs::convert::FromSpecImpl;
use vstd::prelude::*;

verus! {

/// Where a transaction stands in the dispute life cycle.
#[derive(Debug, Clone, Copy, PartialEq, Eq, Structural)]
pub enum TransactionState {
    /// The default state for transactions that arrive to the system
    Normal,
    /// Transactions may be disputed, in which case the transaction's amount must be held
    Disputed,
    /// Transactions may be charged back, in which case the underlying transaction is reverted and
    /// the account is locked.
    ChargedBack,
}

/// A transaction together with its dispute state.
#[derive(Debug, Clone, Copy)]
pub struct Transaction {
    pub tx: ParsedTransaction,
    pub state: TransactionState,
}

/// A refused change of dispute state.
#[derive(Debug, Clone, Copy, PartialEq, Eq, Structural)]
pub struct TransactionStateInvalid;

/// The allowed changes of dispute state: a normal transaction may be disputed;
/// a disputed one may be resolved (back to normal) or charged back. Nothing
/// leaves the charged-back state.
pub open spec fn valid_transition(from: TransactionState, to: TransactionState) -> bool {
    ||| from == TransactionState::Normal && to == TransactionState::Disputed
    ||| from == TransactionState::Disputed && to == TransactionState::Normal
    ||| from == TransactionState::Disputed && to == TransactionState::ChargedBack
}

impl Transaction {
    /// The transaction after an attempt to move it to `new_state`, and the outcome.
    pub open spec fn move_to(self, new_state: TransactionState) -> (Transaction, Result<
        (),
        TransactionStateInvalid,
    >) {
        if valid_transition(self.state, new_state) {
            (Transaction { state: new_state, ..self }, Ok(()))
        } else {
            (self, Err(TransactionStateInvalid))
        }
    }

    /// The parsed transaction.
    pub fn transaction(&self) -> (r: &ParsedTransaction)
        ensures
            *r == self.tx,
    {
        &self.tx
    }

    /// The dispute state.
    pub fn state(&self) -> (r: &TransactionState)
        ensures
            *r == self.state,
    {
        &self.state
    }

    /// Whether the transaction may move from its state to `new_state`.
    pub fn valid_state_transition(&self, new_state: TransactionState) -> (r: bool)
        ensures
            r == valid_transition(self.state, new_state),
    {
        match (self.state, new_state) {
            (TransactionState::Normal, TransactionState::Disputed) => true,
            (TransactionState::Disputed, TransactionState::Normal) => true,
            (TransactionState::Disputed, TransactionState::ChargedBack) => true,
            _ => false,
        }
    }

    /// Marks the transaction disputed; fails unless it is normal.
    pub fn dispute(&mut self) -> (r: Result<(), TransactionStateInvalid>)
        ensures
            (*final(self), r) == old(self).move_to(TransactionState::Disputed),
    {
        if self.valid_state_transition(TransactionState::Disputed) {
            self.state = TransactionState::Disputed;
            Ok(())
        } else {
            Err(TransactionStateInvalid)
        }
    }

    /// Resolves a dispute (back to normal); fails unless the transaction is disputed.
    pub fn resolve(&mut self) -> (r: Result<(), TransactionStateInvalid>)
        ensures
            (*final(self), r) == old(self).move_to(TransactionState::Normal),
    {
        if self.valid_state_transition(TransactionState::Normal) {
            self.state = TransactionState::Normal;
            Ok(())
        } else {
            Err(TransactionStateInvalid)
        }
    }

    /// Charges the transaction back; fails unless it is disputed.
    pub fn chargeback(&mut self) -> (r: Result<(), TransactionStateInvalid>)
        ensures
            (*final(self), r) == old(self).move_to(TransactionState::ChargedBack),
    {
        if self.valid_state_transition(TransactionState::ChargedBack) {
            self.state = TransactionState::ChargedBack;
            Ok(())
        } else {
            Err(TransactionStateInvalid)
        }
    }
}

impl From<ParsedTransaction> for Transaction {
    fn from(value: ParsedTransaction) -> (r: Self)
        ensures
            r == (Transaction { tx: value, state: TransactionState::Normal }),
    {
        Self { state: TransactionState::Normal, tx: value }
    }
}

impl FromSpecImpl<ParsedTransaction> for Transaction {
    open spec fn obeys_from_spec() -> bool {
        true
    }

    open spec fn from_spec(v: ParsedTransaction) -> Self {
        Transaction { tx: v, state: TransactionState::Normal }
    }
}

/// A charged-back transaction never changes state again.
pub proof fn lemma_charged_back_is_final(t: Transaction, new_state: TransactionState)
    requires
        t.state == TransactionState::ChargedBack,
    ensures
        t.move_to(new_state) == (t, Err::<(), TransactionStateInvalid>(TransactionStateInvalid)),
{
}

/// A transaction is only ever charged back from the disputed state, and every
/// successful change of state changes the state.
pub proof fn lemma_transitions_change_state(t: Transaction, new_state: TransactionState)
    ensures
        t.move_to(new_state).1 is Ok ==> t.state != new_state,
        new_state == TransactionState::ChargedBack && t.move_to(new_state).1 is Ok ==> t.state
            == TransactionState::Disputed,
        t.move_to(new_state).1 is Ok ==> t.move_to(new_state).0.state == new_state
            && t.move_to(new_state).0.tx == t.tx,
{
}

/// The dispute life cycle: a normal transaction can only be disputed; a
/// disputed one can only be resolved (back to normal) or charged back; a
/// charged-back one never moves. An accepted move sets exactly the new state.
pub proof fn lemma_life_cycle(t: Transaction, new_state: TransactionState)
    ensures
        t.state == TransactionState::Normal ==> (t.move_to(new_state).1 is Ok <==> new_state
            == TransactionState::Disputed),
        t.state == TransactionState::Disputed ==> (t.move_to(new_state).1 is Ok <==> (new_state
            == TransactionState::Normal || new_state == TransactionState::ChargedBack)),
        t.state == TransactionState::ChargedBack ==> t.move_to(new_state).1 is Err,
        t.move_to(new_state).1 is Ok ==> t.move_to(new_state).0 == (Transaction {
            tx: t.tx,
            state: new_state,
        }),
        t.move_to(new_state).1 is Err ==> t.move_to(new_state).0 == t,
{
}

} // verus!
