//! The per-client report written out once all transactions are applied.
use crate::amount::{sub_fits, Amount};
use crate::engine::account::lemma_available_value;
use crate::engine::account::Account as EngineAccount;
use vstd::prelude::*;

verus! {

/// One output row: a client's available, held and total funds and whether
/// the account is locked.
#[derive(Debug, Clone, Copy)]
pub struct Account {
    pub client: u16,
    pub available: Amount,
    pub held: Amount,
    pub total: Amount,
    pub locked: bool,
}

/// The report of `client`'s account `engine`.
pub open spec fn report(client: u16, engine: EngineAccount) -> Account {
    Account {
        client,
        total: engine.total,
        held: engine.held,
        available: engine.spec_available(),
        locked: engine.locked,
    }
}

impl Account {
    /// The report of `client`'s account `engine`.
    pub fn from_engine(client: u16, engine: &EngineAccount) -> (r: Self)
        requires
            engine.available_defined(),
        ensures
            r == report(client, *engine),
            sub_fits(engine.total, engine.held) && engine.total.value() >= engine.held.value()
                ==> r.available.value() + r.held.value() == r.total.value(),
    {
        Account {
            client,
            total: engine.total(),
            held: engine.held(),
            available: engine.available(),
            locked: engine.locked(),
        }
    }

    /// The report of `client`'s account `engine`; `None` where its available
    /// funds cannot be computed (`total - held` overflows).
    pub fn checked_from_engine(client: u16, engine: &EngineAccount) -> (r: Option<Self>)
        ensures
            r is Some <==> engine.available_defined(),
            r matches Some(a) ==> a == report(client, *engine),
            r is Some && sub_fits(engine.total, engine.held) && engine.total.value()
                >= engine.held.value() ==> r->0.available.value() + r->0.held.value()
                == r->0.total.value(),
    {
        match engine.total.checked_sub(&engine.held) {
            Some(_) => Some(Account::from_engine(client, engine)),
            None => None,
        }
    }
}

/// A report row copies the client, the total, the held funds and the lock of
/// the account, and its available funds are never negative: total minus held
/// where that is positive, else zero (where the subtraction does not round).
pub proof fn lemma_report_matches_account(client: u16, engine: EngineAccount)
    ensures
        report(client, engine).client == client,
        report(client, engine).locked == engine.locked,
        report(client, engine).total == engine.total,
        report(client, engine).held == engine.held,
        report(client, engine).available.value() >= 0,
        sub_fits(engine.total, engine.held) && engine.total.value() - engine.held.value() > 0
            ==> report(client, engine).available.value() == engine.total.value()
            - engine.held.value(),
        sub_fits(engine.total, engine.held) && engine.total.value() - engine.held.value() <= 0
            ==> report(client, engine).available.value() == 0,
{
    lemma_available_value(engine);
}

} // verus!
