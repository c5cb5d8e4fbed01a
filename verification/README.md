# tx_engine

A toy transactions engine. A CSV file of deposits, withdrawals, disputes,
resolutions and chargebacks is applied in order to client accounts; the final
balances are written out as CSV, one row per client in increasing client order.

    app <transactions.csv> > accounts.csv

## Layout

- `src/amount.rs`: decimal amounts, held as the parts of a `decimal_rs::Decimal`;
  addition, subtraction and comparison are delegated to `decimal_rs`.
- `src/engine/account.rs`: an account (total, held, locked) and its operations,
  each with a functional specification.
- `src/engine/transaction.rs`: a recorded transaction and its dispute life cycle
  (normal, disputed, charged back).
- `src/engine/state.rs`: the account registry and the transaction ledger;
  `apply_spec` says what one transaction does, and the proof functions at the end
  of the file state what every transaction keeps (the ledger only grows, locked
  accounts never change, only the transaction's client is touched, ...).
- `src/engine/balance.rs`: the books balance (held funds are the client's
  disputed deposits, the total is deposits not charged back minus withdrawals,
  locked exactly after a chargeback), and the proof that every transaction
  whose arithmetic does not round keeps them balanced.
- `src/format/`: the input rows and the output report rows.
- `app/main.rs`: argument handling, CSV reading and writing.
