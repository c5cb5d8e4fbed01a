//! Transactions as they arrive, one per input row.
use crate::amount::Amount;
#[allow(unused_imports)]
use vstd::std_specs::convert::TryFromSpecImpl;
use vstd::prelude::*;

verus! {

/// A transaction, as parsed from an input row.
#[derive(Debug, Clone, Copy)]
pub enum ParsedTransaction {
    Deposit { client: u16, id: u32, amount: Amount },
    Withdrawal { client: u16, id: u32, amount: Amount },
    Dispute { client: u16, id: u32 },
    Resolve { client: u16, id: u32 },
    Chargeback { client: u16, id: u32 },
}

/// The kind of a transaction row (the `type` column).
#[derive(Debug, Clone, Copy, PartialEq, Eq, Structural)]
pub enum TransactionKind {
    Deposit,
    Withdrawal,
    Dispute,
    Resolve,
    Chargeback,
}

/// One input row.
#[derive(Debug, Clone, Copy)]
pub struct TransactionRow {
    pub kind: TransactionKind,
    /// Client associated with this transaction
    pub client: u16,
    /// Transaction amount
    pub amount: Option<Amount>,
    /// Transaction identifier. Not sequential
    pub id: u32,
}

/// A row that does not describe a transaction: a deposit or a withdrawal
/// without an amount.
#[derive(Debug, Clone, Copy, PartialEq, Eq, Structural)]
pub struct ParseError;

/// What a row describes: deposits and withdrawals take the row's amount and
/// fail without one; disputes, resolutions and chargebacks ignore it.
pub open spec fn parse_row(row: TransactionRow) -> Result<ParsedTransaction, ParseError> {
    match row.kind {
        TransactionKind::Deposit => match row.amount {
            Some(amount) => Ok(ParsedTransaction::Deposit { client: row.client, id: row.id, amount }),
            None => Err(ParseError),
        },
        TransactionKind::Withdrawal => match row.amount {
            Some(amount) => Ok(
                ParsedTransaction::Withdrawal { client: row.client, id: row.id, amount },
            ),
            None => Err(ParseError),
        },
        TransactionKind::Dispute => Ok(ParsedTransaction::Dispute { client: row.client, id: row.id }),
        TransactionKind::Resolve => Ok(ParsedTransaction::Resolve { client: row.client, id: row.id }),
        TransactionKind::Chargeback => Ok(
            ParsedTransaction::Chargeback { client: row.client, id: row.id },
        ),
    }
}

impl ParsedTransaction {
    /// The client the transaction is tagged with.
    pub open spec fn client(self) -> u16 {
        match self {
            ParsedTransaction::Deposit { client, .. } => client,
            ParsedTransaction::Withdrawal { client, .. } => client,
            ParsedTransaction::Dispute { client, .. } => client,
            ParsedTransaction::Resolve { client, .. } => client,
            ParsedTransaction::Chargeback { client, .. } => client,
        }
    }

    /// The amount of a deposit or a withdrawal (zero for the other kinds).
    pub open spec fn amount(self) -> Amount {
        match self {
            ParsedTransaction::Deposit { amount, .. } => amount,
            ParsedTransaction::Withdrawal { amount, .. } => amount,
            _ => Amount::spec_zero(),
        }
    }

    /// The transaction identifier (for disputes, resolutions and chargebacks:
    /// the identifier of the transaction they refer to).
    pub open spec fn id(self) -> u32 {
        match self {
            ParsedTransaction::Deposit { id, .. } => id,
            ParsedTransaction::Withdrawal { id, .. } => id,
            ParsedTransaction::Dispute { id, .. } => id,
            ParsedTransaction::Resolve { id, .. } => id,
            ParsedTransaction::Chargeback { id, .. } => id,
        }
    }
}

impl TryFrom<TransactionRow> for ParsedTransaction {
    type Error = ParseError;

    fn try_from(value: TransactionRow) -> (r: Result<Self, Self::Error>)
        ensures
            r == parse_row(value),
    {
        match value.kind {
            TransactionKind::Deposit => {
                if let Some(amount) = value.amount {
                    return Ok(Self::Deposit { client: value.client, id: value.id, amount: amount });
                }
                Err(ParseError)
            },
            TransactionKind::Withdrawal => {
                if let Some(amount) = value.amount {
                    return Ok(
                        Self::Withdrawal { client: value.client, id: value.id, amount: amount },
                    );
                }
                Err(ParseError)
            },
            TransactionKind::Dispute => { Ok(Self::Dispute { client: value.client, id: value.id }) },
            TransactionKind::Resolve => { Ok(Self::Resolve { client: value.client, id: value.id }) },
            TransactionKind::Chargeback => {
                Ok(Self::Chargeback { client: value.client, id: value.id })
            },
        }
    }
}

impl TryFromSpecImpl<TransactionRow> for ParsedTransaction {
    open spec fn obeys_try_from_spec() -> bool {
        true
    }

    open spec fn try_from_spec(v: TransactionRow) -> Result<Self, Self::Error> {
        parse_row(v)
    }
}

/// Parsing a row keeps its client and id: a deposit or withdrawal row with an
/// amount becomes that transaction with that amount, and without one is
/// refused; a dispute, resolution or chargeback row becomes that transaction,
/// with or without an amount.
pub proof fn lemma_parse_row(row: TransactionRow)
    ensures
        parse_row(row) is Ok ==> parse_row(row)->Ok_0.client() == row.client && parse_row(
            row,
        )->Ok_0.id() == row.id,
        row.kind == TransactionKind::Deposit ==> (parse_row(row) is Ok <==> row.amount is Some),
        row.kind == TransactionKind::Withdrawal ==> (parse_row(row) is Ok <==> row.amount is Some),
        row.kind == TransactionKind::Deposit && row.amount is Some ==> parse_row(row)->Ok_0
            is Deposit && parse_row(row)->Ok_0.amount() == row.amount->0,
        row.kind == TransactionKind::Withdrawal && row.amount is Some ==> parse_row(row)->Ok_0
            is Withdrawal && parse_row(row)->Ok_0.amount() == row.amount->0,
        row.kind == TransactionKind::Dispute ==> parse_row(row) is Ok && parse_row(row)->Ok_0
            is Dispute,
        row.kind == TransactionKind::Resolve ==> parse_row(row) is Ok && parse_row(row)->Ok_0
            is Resolve,
        row.kind == TransactionKind::Chargeback ==> parse_row(row) is Ok && parse_row(row)->Ok_0
            is Chargeback,
        parse_row(row) is Err ==> parse_row(row) == Err::<ParsedTransaction, _>(ParseError),
{
}

} // verus!
