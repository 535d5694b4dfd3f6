//! Events as the ledger receives them, and the records they are built from.
use crate::amount::{truncated_units, Amount, DecimalParts};
use crate::transaction_type::TransactionType;
use vstd::prelude::*;

verus! {

/// One input record: its kind, client, transaction and optional amount.
#[derive(Clone, Copy, Debug, PartialEq, Eq)]
pub struct CsvTransaction {
    pub kind: TransactionType,
    pub client: u16,
    pub tx: u32,
    pub amount: Option<DecimalParts>,
}

/// Why a record cannot become an event.
#[derive(Clone, Copy, Debug, PartialEq, Eq, Structural)]
pub enum RecordError {
    /// A deposit or a withdrawal came without an amount.
    MissingAmount { kind: TransactionType },
}

/// The amount of a record, cut toward zero to four fractional digits.
pub open spec fn ingested(d: DecimalParts) -> Amount {
    Amount { units: truncated_units(d.spec_mantissa(), d.spec_scale()) as i128 }
}

/// The event that a record stands for.
pub open spec fn record_to_event(csv: CsvTransaction) -> Result<Transaction, RecordError> {
    match csv.kind {
        TransactionType::Deposit => match csv.amount {
            Some(d) => Ok(
                Transaction::Deposit(
                    DepositTransaction { client: csv.client, tx: csv.tx, amount: ingested(d) },
                ),
            ),
            None => Err(RecordError::MissingAmount { kind: TransactionType::Deposit }),
        },
        TransactionType::Withdrawal => match csv.amount {
            Some(d) => Ok(
                Transaction::Withdrawal(
                    WithdrawalTransaction { client: csv.client, tx: csv.tx, amount: ingested(d) },
                ),
            ),
            None => Err(RecordError::MissingAmount { kind: TransactionType::Withdrawal }),
        },
        TransactionType::Dispute => Ok(
            Transaction::Dispute(DisputeTransaction { client: csv.client, tx: csv.tx }),
        ),
        TransactionType::Resolve => Ok(
            Transaction::Resolve(ResolveTransaction { client: csv.client, tx: csv.tx }),
        ),
        TransactionType::Chargeback => Ok(
            Transaction::Chargeback(ChargebackTransaction { client: csv.client, tx: csv.tx }),
        ),
    }
}

impl TryFrom<CsvTransaction> for Transaction {
    type Error = RecordError;

    fn try_from(csv: CsvTransaction) -> (r: Result<Self, Self::Error>) {
        match csv.kind {
            TransactionType::Deposit => {
                if let Some(amount) = csv.amount {
                    Ok(
                        Transaction::Deposit(
                            DepositTransaction {
                                client: csv.client,
                                tx: csv.tx,
                                amount: Amount::from_decimal(amount),
                            },
                        ),
                    )
                } else {
                    Err(RecordError::MissingAmount { kind: TransactionType::Deposit })
                }
            },
            TransactionType::Withdrawal => {
                if let Some(amount) = csv.amount {
                    Ok(
                        Transaction::Withdrawal(
                            WithdrawalTransaction {
                                client: csv.client,
                                tx: csv.tx,
                                amount: Amount::from_decimal(amount),
                            },
                        ),
                    )
                } else {
                    Err(RecordError::MissingAmount { kind: TransactionType::Withdrawal })
                }
            },
            TransactionType::Dispute => Ok(
                Transaction::Dispute(DisputeTransaction { client: csv.client, tx: csv.tx }),
            ),
            TransactionType::Resolve => Ok(
                Transaction::Resolve(ResolveTransaction { client: csv.client, tx: csv.tx }),
            ),
            TransactionType::Chargeback => Ok(
                Transaction::Chargeback(ChargebackTransaction { client: csv.client, tx: csv.tx }),
            ),
        }
    }
}

impl vstd::std_specs::convert::TryFromSpecImpl<CsvTransaction> for Transaction {
    open spec fn obeys_try_from_spec() -> bool {
        true
    }

    open spec fn try_from_spec(csv: CsvTransaction) -> Result<Self, RecordError> {
        record_to_event(csv)
    }
}

#[derive(Clone, Copy, Debug, PartialEq, Eq, Structural)]
pub enum Transaction {
    Deposit(DepositTransaction),
    Withdrawal(WithdrawalTransaction),
    Dispute(DisputeTransaction),
    Resolve(ResolveTransaction),
    Chargeback(ChargebackTransaction),
}

impl Transaction {
    /// The client that the event names.
    pub open spec fn spec_client(self) -> u16 {
        match self {
            Transaction::Deposit(t) => t.client,
            Transaction::Withdrawal(t) => t.client,
            Transaction::Dispute(t) => t.client,
            Transaction::Resolve(t) => t.client,
            Transaction::Chargeback(t) => t.client,
        }
    }
}

#[derive(Clone, Copy, Debug, PartialEq, Eq, Structural)]
pub struct DepositTransaction {
    pub client: u16,
    pub tx: u32,
    pub amount: Amount,
}

#[derive(Clone, Copy, Debug, PartialEq, Eq, Structural)]
pub struct WithdrawalTransaction {
    pub client: u16,
    pub tx: u32,
    pub amount: Amount,
}

#[derive(Clone, Copy, Debug, PartialEq, Eq, Structural)]
pub struct DisputeTransaction {
    pub client: u16,
    pub tx: u32,
}

#[derive(Clone, Copy, Debug, PartialEq, Eq, Structural)]
pub struct ResolveTransaction {
    pub client: u16,
    pub tx: u32,
}

#[derive(Clone, Copy, Debug, PartialEq, Eq, Structural)]
pub struct ChargebackTransaction {
    pub client: u16,
    pub tx: u32,
}

} // verus!
