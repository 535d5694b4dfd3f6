//! Settled transactions by identifier.
use crate::stored_transaction::StoredTransaction;
use std::collections::HashMap;
use vstd::prelude::*;

verus! {

broadcast use vstd::std_specs::hash::group_hash_axioms;

/// Settled deposits and withdrawals by transaction identifier.
#[derive(Debug)]
pub struct TransactionStore {
    transactions: HashMap<u32, StoredTransaction>,
}

impl View for TransactionStore {
    type V = Map<u32, StoredTransaction>;

    closed spec fn view(&self) -> Map<u32, StoredTransaction> {
        self.transactions@
    }
}

impl Default for TransactionStore {
    fn default() -> (r: Self)
        ensures
            r@ == Map::<u32, StoredTransaction>::empty(),
    {
        TransactionStore { transactions: HashMap::new() }
    }
}

impl TransactionStore {
    /// Records a transaction under its identifier, replacing any earlier one.
    pub fn store<T>(&mut self, transaction: T)
        where
            T: Into<StoredTransaction>,
        ensures
            exists|stored: StoredTransaction|
                call_ensures(T::into, (transaction,), stored) && final(self)@ == old(
                    self,
                )@.insert(stored.spec_tx(), stored),
    {
        let stored: StoredTransaction = transaction.into();
        self.transactions.insert(stored.tx(), stored);
    }

    /// The transaction recorded under `tx`, if any.
    pub fn get(&self, tx: u32) -> (r: Option<&StoredTransaction>)
        ensures
            r is Some <==> self@.contains_key(tx),
            r matches Some(s) ==> *s == self@[tx],
    {
        self.transactions.get(&tx)
    }
}

} // verus!
