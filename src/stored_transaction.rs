//! Settled deposits and withdrawals, kept so that later disputes can find them.
use crate::amount::Amount;
use crate::transaction::{DepositTransaction, WithdrawalTransaction};
use vstd::prelude::*;

verus! {

#[derive(Clone, Copy, Debug, PartialEq, Eq, Structural)]
pub enum StoredTransaction {
    Deposit(StoredDepositTransaction),
    Withdrawal(StoredWithdrawalTransaction),
}

impl StoredTransaction {
    pub open spec fn spec_tx(self) -> u32 {
        match self {
            StoredTransaction::Deposit(deposit) => deposit.tx,
            StoredTransaction::Withdrawal(withdrawal) => withdrawal.tx,
        }
    }

    pub open spec fn spec_client(self) -> u16 {
        match self {
            StoredTransaction::Deposit(deposit) => deposit.client,
            StoredTransaction::Withdrawal(withdrawal) => withdrawal.client,
        }
    }

    /// The identifier of the transaction.
    pub fn tx(&self) -> (r: u32)
        ensures
            r == self.spec_tx(),
    {
        match self {
            StoredTransaction::Deposit(deposit) => deposit.tx,
            StoredTransaction::Withdrawal(withdrawal) => withdrawal.tx,
        }
    }

    /// The client that owns the transaction.
    pub fn client(&self) -> (r: u16)
        ensures
            r == self.spec_client(),
    {
        match self {
            StoredTransaction::Deposit(deposit) => deposit.client,
            StoredTransaction::Withdrawal(withdrawal) => withdrawal.client,
        }
    }
}

impl<'a> From<&'a DepositTransaction> for StoredTransaction {
    fn from(deposit: &'a DepositTransaction) -> (r: Self) {
        StoredTransaction::Deposit(StoredDepositTransaction::from(deposit))
    }
}

impl<'a> vstd::std_specs::convert::FromSpecImpl<&'a DepositTransaction> for StoredTransaction {
    open spec fn obeys_from_spec() -> bool {
        true
    }

    open spec fn from_spec(deposit: &'a DepositTransaction) -> Self {
        StoredTransaction::Deposit(
            StoredDepositTransaction {
                tx: deposit.tx,
                client: deposit.client,
                amount: deposit.amount,
            },
        )
    }
}

impl<'a> From<&'a WithdrawalTransaction> for StoredTransaction {
    fn from(withdrawal: &'a WithdrawalTransaction) -> (r: Self) {
        StoredTransaction::Withdrawal(StoredWithdrawalTransaction::from(withdrawal))
    }
}

impl<'a> vstd::std_specs::convert::FromSpecImpl<&'a WithdrawalTransaction> for StoredTransaction {
    open spec fn obeys_from_spec() -> bool {
        true
    }

    open spec fn from_spec(withdrawal: &'a WithdrawalTransaction) -> Self {
        StoredTransaction::Withdrawal(
            StoredWithdrawalTransaction {
                tx: withdrawal.tx,
                client: withdrawal.client,
                amount: withdrawal.amount,
            },
        )
    }
}

#[derive(Clone, Copy, Debug, PartialEq, Eq, Structural)]
pub struct StoredDepositTransaction {
    pub tx: u32,
    pub client: u16,
    pub amount: Amount,
}

impl<'a> From<&'a DepositTransaction> for StoredDepositTransaction {
    fn from(deposit: &'a DepositTransaction) -> (r: Self) {
        StoredDepositTransaction { tx: deposit.tx, client: deposit.client, amount: deposit.amount }
    }
}

impl<'a> vstd::std_specs::convert::FromSpecImpl<&'a DepositTransaction> for StoredDepositTransaction {
    open spec fn obeys_from_spec() -> bool {
        true
    }

    open spec fn from_spec(deposit: &'a DepositTransaction) -> Self {
        StoredDepositTransaction { tx: deposit.tx, client: deposit.client, amount: deposit.amount }
    }
}

#[derive(Clone, Copy, Debug, PartialEq, Eq, Structural)]
pub struct StoredWithdrawalTransaction {
    pub tx: u32,
    pub client: u16,
    pub amount: Amount,
}

impl<'a> From<&'a WithdrawalTransaction> for StoredWithdrawalTransaction {
    fn from(withdrawal: &'a WithdrawalTransaction) -> (r: Self) {
        StoredWithdrawalTransaction {
            tx: withdrawal.tx,
            client: withdrawal.client,
            amount: withdrawal.amount,
        }
    }
}

impl<'a> vstd::std_specs::convert::FromSpecImpl<&'a WithdrawalTransaction> for
    StoredWithdrawalTransaction {
    open spec fn obeys_from_spec() -> bool {
        true
    }

    open spec fn from_spec(withdrawal: &'a WithdrawalTransaction) -> Self {
        StoredWithdrawalTransaction {
            tx: withdrawal.tx,
            client: withdrawal.client,
            amount: withdrawal.amount,
        }
    }
}

} // verus!
