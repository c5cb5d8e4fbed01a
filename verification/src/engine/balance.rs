//! The books balance: every account agrees with the ledger.
//!
//! For each client with an account, the held funds are the sum of the
//! client's disputed deposits; the total is the sum of the client's deposits
//! that were not charged back minus the sum of the client's withdrawals; and
//! the account is locked exactly when one of the client's deposits was
//! charged back. Every transaction whose arithmetic does not round keeps this.
use crate::amount::{add_fits, group_amount, sub_fits};
use crate::engine::state::{apply_spec, StateView};
use crate::engine::transaction::{Transaction, TransactionState};
use crate::format::transaction::ParsedTransaction;
use vstd::prelude::*;

verus! {

broadcast use group_amount;

/// The sum of `f` over a finite set of transaction ids.
pub open spec fn key_sum(keys: Set<u32>, f: spec_fn(u32) -> int) -> int
    decreases keys.len(),
    when keys.finite()
{
    if keys.len() == 0 {
        0
    } else {
        let k = keys.choose();
        f(k) + key_sum(keys.remove(k), f)
    }
}

/// Taking any one id out of the sum.
pub proof fn lemma_key_sum_remove(s: Set<u32>, f: spec_fn(u32) -> int, x: u32)
    requires
        s.finite(),
        s.contains(x),
    ensures
        key_sum(s, f) == f(x) + key_sum(s.remove(x), f),
    decreases s.len(),
{
    let y = s.choose();
    assert(s.len() != 0);
    if y != x {
        lemma_key_sum_remove(s.remove(y), f, x);
        lemma_key_sum_remove(s.remove(x), f, y);
        assert(s.remove(y).remove(x) =~= s.remove(x).remove(y));
    }
}

/// Sums of functions that agree on the set are equal.
pub proof fn lemma_key_sum_congruent(s: Set<u32>, f: spec_fn(u32) -> int, g: spec_fn(u32) -> int)
    requires
        s.finite(),
        forall|k: u32| s.contains(k) ==> f(k) == g(k),
    ensures
        key_sum(s, f) == key_sum(s, g),
    decreases s.len(),
{
    if s.len() != 0 {
        let y = s.choose();
        lemma_key_sum_congruent(s.remove(y), f, g);
    }
}

/// A sum of zeros is zero.
pub proof fn lemma_key_sum_zero(s: Set<u32>, f: spec_fn(u32) -> int)
    requires
        s.finite(),
        forall|k: u32| s.contains(k) ==> f(k) == 0,
    ensures
        key_sum(s, f) == 0,
    decreases s.len(),
{
    if s.len() != 0 {
        let y = s.choose();
        lemma_key_sum_zero(s.remove(y), f);
    }
}

/// Changing (or adding) the term of one id changes the sum by the difference.
pub proof fn lemma_key_sum_update(
    s: Set<u32>,
    f: spec_fn(u32) -> int,
    g: spec_fn(u32) -> int,
    id: u32,
)
    requires
        s.finite(),
        forall|k: u32| s.contains(k) && k != id ==> f(k) == g(k),
    ensures
        key_sum(s.insert(id), g) == key_sum(s, f) - (if s.contains(id) {
            f(id)
        } else {
            0
        }) + g(id),
{
    let t = s.insert(id);
    lemma_key_sum_remove(t, g, id);
    assert(t.remove(id) =~= s.remove(id));
    lemma_key_sum_congruent(s.remove(id), f, g);
    if s.contains(id) {
        lemma_key_sum_remove(s, f, id);
    } else {
        assert(s.remove(id) =~= s);
    }
}

/// What a recorded transaction contributes to client `c`'s held funds: the
/// amount of a disputed deposit of `c`.
pub open spec fn held_part(t: Transaction, c: u16) -> int {
    if t.tx is Deposit && t.tx.client() == c && t.state == TransactionState::Disputed {
        t.tx.amount().value()
    } else {
        0
    }
}

/// What a recorded transaction contributes to client `c`'s total: the amount
/// of a deposit of `c` not charged back, minus the amount of a withdrawal of `c`.
pub open spec fn net_part(t: Transaction, c: u16) -> int {
    if t.tx.client() != c {
        0
    } else if t.tx is Deposit {
        if t.state == TransactionState::ChargedBack {
            0
        } else {
            t.tx.amount().value()
        }
    } else if t.tx is Withdrawal {
        -t.tx.amount().value()
    } else {
        0
    }
}

/// A charged-back deposit of client `c`.
pub open spec fn is_charged_back(t: Transaction, c: u16) -> bool {
    t.tx is Deposit && t.tx.client() == c && t.state == TransactionState::ChargedBack
}

/// The sum of client `c`'s disputed deposits.
pub open spec fn held_of(ledger: Map<u32, Transaction>, c: u16) -> int {
    key_sum(ledger.dom(), |k: u32| held_part(ledger[k], c))
}

/// Client `c`'s deposits not charged back minus its withdrawals.
pub open spec fn net_of(ledger: Map<u32, Transaction>, c: u16) -> int {
    key_sum(ledger.dom(), |k: u32| net_part(ledger[k], c))
}

/// One of client `c`'s deposits was charged back.
pub open spec fn charged_back(ledger: Map<u32, Transaction>, c: u16) -> bool {
    exists|k: u32| ledger.contains_key(k) && #[trigger] is_charged_back(ledger[k], c)
}

impl StateView {
    /// Every account agrees with the ledger.
    pub open spec fn balanced(self) -> bool {
        &&& self.ledger.dom().finite()
        &&& forall|c: u16| #[trigger]
            self.accounts.contains_key(c) ==> {
                let a = self.accounts[c];
                &&& a.held.value() == held_of(self.ledger, c)
                &&& a.total.value() == net_of(self.ledger, c)
                &&& a.locked <==> charged_back(self.ledger, c)
            }
    }
}

/// The arithmetic that `tx` does, where the account accepts it, does not
/// round: a deposit's or withdrawal's change of the total, a dispute's or
/// resolution's change of the held funds, a chargeback's change of both.
pub open spec fn step_fits(v: StateView, tx: Transaction) -> bool {
    match tx.tx {
        ParsedTransaction::Deposit { client, amount, .. } => add_fits(
            v.account_or_default(client).total,
            amount,
        ),
        ParsedTransaction::Withdrawal { client, amount, .. } => sub_fits(
            v.account_or_default(client).total,
            amount,
        ),
        ParsedTransaction::Dispute { client, id } => v.ledger.contains_key(id) ==> add_fits(
            v.accounts[client].held,
            v.ledger[id].tx.amount(),
        ),
        ParsedTransaction::Resolve { client, id } => v.ledger.contains_key(id) ==> sub_fits(
            v.accounts[client].held,
            v.ledger[id].tx.amount(),
        ),
        ParsedTransaction::Chargeback { client, id } => v.ledger.contains_key(id) ==> {
            &&& sub_fits(v.accounts[client].held, v.ledger[id].tx.amount())
            &&& sub_fits(v.accounts[client].total, v.ledger[id].tx.amount())
        },
    }
}

/// A deposit arrives in the normal state, as `Transaction::from` makes it.
pub open spec fn arrives_normal(tx: Transaction) -> bool {
    tx.tx is Deposit ==> tx.state == TransactionState::Normal
}

/// How client `c`'s sums change when transaction `id` is recorded as `t`.
proof fn lemma_sums_after_insert(ledger: Map<u32, Transaction>, id: u32, t: Transaction, c: u16)
    requires
        ledger.dom().finite(),
    ensures
        held_of(ledger.insert(id, t), c) == held_of(ledger, c) - (if ledger.contains_key(id) {
            held_part(ledger[id], c)
        } else {
            0
        }) + held_part(t, c),
        net_of(ledger.insert(id, t), c) == net_of(ledger, c) - (if ledger.contains_key(id) {
            net_part(ledger[id], c)
        } else {
            0
        }) + net_part(t, c),
        ledger.insert(id, t).dom().finite(),
{
    let w = ledger.insert(id, t);
    assert(w.dom() =~= ledger.dom().insert(id));
    let f = |k: u32| held_part(ledger[k], c);
    let g = |k: u32| held_part(w[k], c);
    lemma_key_sum_update(ledger.dom(), f, g, id);
    let f2 = |k: u32| net_part(ledger[k], c);
    let g2 = |k: u32| net_part(w[k], c);
    lemma_key_sum_update(ledger.dom(), f2, g2, id);
}

/// Recording `t` as transaction `id` keeps whether client `c` has a
/// charged-back deposit, where `t` and the entry it replaces agree on it.
proof fn lemma_charged_back_after_insert(ledger: Map<u32, Transaction>, id: u32, t: Transaction, c: u16)
    requires
        is_charged_back(t, c) == (ledger.contains_key(id) && is_charged_back(ledger[id], c)),
    ensures
        charged_back(ledger.insert(id, t), c) == charged_back(ledger, c),
{
    let w = ledger.insert(id, t);
    if charged_back(w, c) {
        let k = choose|k: u32| w.contains_key(k) && #[trigger] is_charged_back(w[k], c);
        assert(ledger.contains_key(k) && is_charged_back(ledger[k], c));
    }
    if charged_back(ledger, c) {
        let k = choose|k: u32| ledger.contains_key(k) && #[trigger] is_charged_back(ledger[k], c);
        assert(w.contains_key(k) && is_charged_back(w[k], c));
    }
}

/// A client without an account has nothing in the ledger.
proof fn lemma_no_account_no_entries(v: StateView, c: u16)
    requires
        v.wf(),
        v.ledger.dom().finite(),
        !v.accounts.contains_key(c),
    ensures
        held_of(v.ledger, c) == 0,
        net_of(v.ledger, c) == 0,
        !charged_back(v.ledger, c),
{
    assert forall|k: u32| v.ledger.dom().contains(k) implies v.ledger[k].tx.client() != c by {
        assert(v.ledger.contains_key(k));
    }
    lemma_key_sum_zero(v.ledger.dom(), |k: u32| held_part(v.ledger[k], c));
    lemma_key_sum_zero(v.ledger.dom(), |k: u32| net_part(v.ledger[k], c));
    if charged_back(v.ledger, c) {
        let k = choose|k: u32| v.ledger.contains_key(k) && #[trigger] is_charged_back(v.ledger[k], c);
        assert(v.ledger.dom().contains(k));
    }
}

/// The books stay balanced: applying a transaction that arrives in the normal
/// state and whose arithmetic does not round keeps every account in agreement
/// with the ledger.
pub proof fn lemma_apply_keeps_balance(v: StateView, tx: Transaction)
    requires
        v.wf(),
        v.balanced(),
        arrives_normal(tx),
        step_fits(v, tx),
    ensures
        apply_spec(v, tx).0.balanced(),
{
    let (w, r) = apply_spec(v, tx);
    let c = tx.tx.client();
    if r is Err {
        assert(w.ledger == v.ledger);
        assert forall|d: u16| #[trigger] w.accounts.contains_key(d) implies {
            let a = w.accounts[d];
            &&& a.held.value() == held_of(w.ledger, d)
            &&& a.total.value() == net_of(w.ledger, d)
            &&& a.locked <==> charged_back(w.ledger, d)
        } by {
            if !v.accounts.contains_key(d) {
                lemma_no_account_no_entries(v, d);
            }
        }
        return;
    }
    match tx.tx {
        ParsedTransaction::Deposit { client, id, amount } => {
            let t = tx;
            assert(w.ledger == v.ledger.insert(id, t));
            if !v.accounts.contains_key(c) {
                lemma_no_account_no_entries(v, c);
            }
            assert forall|d: u16| #[trigger] w.accounts.contains_key(d) implies {
                let a = w.accounts[d];
                &&& a.held.value() == held_of(w.ledger, d)
                &&& a.total.value() == net_of(w.ledger, d)
                &&& a.locked <==> charged_back(w.ledger, d)
            } by {
                lemma_sums_after_insert(v.ledger, id, t, d);
                lemma_charged_back_after_insert(v.ledger, id, t, d);
            }
        },
        ParsedTransaction::Withdrawal { client, id, amount } => {
            let t = tx;
            assert(w.ledger == v.ledger.insert(id, t));
            if !v.accounts.contains_key(c) {
                lemma_no_account_no_entries(v, c);
            }
            assert forall|d: u16| #[trigger] w.accounts.contains_key(d) implies {
                let a = w.accounts[d];
                &&& a.held.value() == held_of(w.ledger, d)
                &&& a.total.value() == net_of(w.ledger, d)
                &&& a.locked <==> charged_back(w.ledger, d)
            } by {
                lemma_sums_after_insert(v.ledger, id, t, d);
                lemma_charged_back_after_insert(v.ledger, id, t, d);
            }
        },
        ParsedTransaction::Dispute { client, id } => {
            lemma_settle_keeps_balance(v, client, id, TransactionState::Disputed);
        },
        ParsedTransaction::Resolve { client, id } => {
            lemma_settle_keeps_balance(v, client, id, TransactionState::Normal);
        },
        ParsedTransaction::Chargeback { client, id } => {
            lemma_settle_keeps_balance(v, client, id, TransactionState::ChargedBack);
        },
    }
}

/// The dispute, resolution and chargeback cases of [`lemma_apply_keeps_balance`].
proof fn lemma_settle_keeps_balance(v: StateView, client: u16, id: u32, kind: TransactionState)
    requires
        v.wf(),
        v.balanced(),
        v.ledger.contains_key(id) ==> match kind {
            TransactionState::Disputed => add_fits(
                v.accounts[client].held,
                v.ledger[id].tx.amount(),
            ),
            TransactionState::Normal => sub_fits(v.accounts[client].held, v.ledger[id].tx.amount()),
            TransactionState::ChargedBack => {
                &&& sub_fits(v.accounts[client].held, v.ledger[id].tx.amount())
                &&& sub_fits(v.accounts[client].total, v.ledger[id].tx.amount())
            },
        },
        crate::engine::state::settle_spec(v, client, id, kind).1 is Ok,
    ensures
        crate::engine::state::settle_spec(v, client, id, kind).0.balanced(),
{
    let w = crate::engine::state::settle_spec(v, client, id, kind).0;
    if v.ledger.contains_key(id) {
        let old_t = v.ledger[id];
        let t = old_t.move_to(kind).0;
        assert(w.ledger == v.ledger.insert(id, t));
        assert(v.accounts.contains_key(client));
        assert forall|d: u16| #[trigger] w.accounts.contains_key(d) implies {
            let a = w.accounts[d];
            &&& a.held.value() == held_of(w.ledger, d)
            &&& a.total.value() == net_of(w.ledger, d)
            &&& a.locked <==> charged_back(w.ledger, d)
        } by {
            lemma_sums_after_insert(v.ledger, id, t, d);
            if d != client || kind != TransactionState::ChargedBack {
                lemma_charged_back_after_insert(v.ledger, id, t, d);
            } else {
                assert(w.ledger.contains_key(id) && is_charged_back(w.ledger[id], d));
            }
        }
    }
}

} // verus!
