//! The dispatcher: routes each event to its account and remembers settled
//! transactions for later disputes.
use crate::account_state::{self, stays_in_range, AccountModel, AccountState};
use crate::account_store::{account_or_fresh, models_of, AccountStore};
use crate::stored_transaction::{
    StoredDepositTransaction, StoredTransaction, StoredWithdrawalTransaction,
};
use crate::transaction::{
    ChargebackTransaction, DepositTransaction, DisputeTransaction, ResolveTransaction, Transaction,
    WithdrawalTransaction,
};
use crate::transaction_store::TransactionStore;
use vstd::prelude::*;

verus! {

broadcast use vstd::std_specs::hash::group_hash_axioms;

/// Why the ledger refused an event.
#[derive(Clone, Copy, Debug, PartialEq, Eq, Structural)]
pub enum Error {
    AccountStateError(account_state::Error),
    DisputeTransactionNotFound { client: u16, tx: u32 },
    DisputeUnOwnedTransaction { client: u16, tx: u32, owner: u16 },
}

impl From<account_state::Error> for Error {
    fn from(e: account_state::Error) -> (r: Self) {
        Error::AccountStateError(e)
    }
}

impl vstd::std_specs::convert::FromSpecImpl<account_state::Error> for Error {
    open spec fn obeys_from_spec() -> bool {
        true
    }

    open spec fn from_spec(e: account_state::Error) -> Self {
        Error::AccountStateError(e)
    }
}

/// What a ledger is: the account of each client seen so far, and the settled
/// transactions by identifier.
pub struct LedgerModel {
    pub accounts: Map<u16, AccountModel>,
    pub transactions: Map<u32, StoredTransaction>,
}

impl LedgerModel {
    /// Every account is well formed and filed under its own client, and
    /// every transaction under its own identifier.
    pub open spec fn wf(self) -> bool {
        &&& forall|c: u16| #[trigger]
            self.accounts.contains_key(c) ==> self.accounts[c].wf() && self.accounts[c].client == c
        &&& forall|tx: u32| #[trigger]
            self.transactions.contains_key(tx) ==> self.transactions[tx].spec_tx() == tx
    }

    /// The ledger after an account operation on `client`: the new account on
    /// success; on failure the account as it was (created if it was not there).
    pub open spec fn settle(self, client: u16, outcome: Result<AccountModel, account_state::Error>) -> (
        LedgerModel,
        Result<(), Error>,
    ) {
        match outcome {
            Ok(next) => (LedgerModel { accounts: self.accounts.insert(client, next), ..self }, Ok(())),
            Err(e) => (
                LedgerModel {
                    accounts: self.accounts.insert(client, account_or_fresh(self.accounts, client)),
                    ..self
                },
                Err(Error::AccountStateError(e)),
            ),
        }
    }

    /// The outcome of the account operation that an event asks for, where
    /// the event gets that far.
    pub open spec fn account_outcome(self, t: Transaction) -> Option<
        Result<AccountModel, account_state::Error>,
    > {
        let account = account_or_fresh(self.accounts, t.spec_client());
        match t {
            Transaction::Deposit(d) => Some(account.deposit(d.amount.units as int)),
            Transaction::Withdrawal(w) => Some(account.withdraw(w.amount.units as int)),
            Transaction::Dispute(d) => if self.transactions.contains_key(d.tx)
                && self.transactions[d.tx].spec_client() == d.client {
                Some(account.dispute(self.transactions[d.tx]))
            } else {
                None
            },
            Transaction::Resolve(r) => Some(account.resolve(r.tx)),
            Transaction::Chargeback(c) => Some(account.chargeback(c.tx)),
        }
    }

    /// The balances that the event leaves fit in an `i128`.
    pub open spec fn admits(self, t: Transaction) -> bool {
        self.account_outcome(t) matches Some(outcome) ==> stays_in_range(outcome)
    }

    /// The ledger after one event, and what processing the event returns.
    pub open spec fn step(self, t: Transaction) -> (LedgerModel, Result<(), Error>) {
        let client = t.spec_client();
        let account = account_or_fresh(self.accounts, client);
        match t {
            Transaction::Deposit(d) => {
                let (next, r) = self.settle(client, account.deposit(d.amount.units as int));
                if r is Ok {
                    (
                        LedgerModel {
                            transactions: next.transactions.insert(
                                d.tx,
                                StoredTransaction::Deposit(
                                    StoredDepositTransaction {
                                        tx: d.tx,
                                        client: d.client,
                                        amount: d.amount,
                                    },
                                ),
                            ),
                            ..next
                        },
                        r,
                    )
                } else {
                    (next, r)
                }
            },
            Transaction::Withdrawal(w) => {
                let (next, r) = self.settle(client, account.withdraw(w.amount.units as int));
                if r is Ok {
                    (
                        LedgerModel {
                            transactions: next.transactions.insert(
                                w.tx,
                                StoredTransaction::Withdrawal(
                                    StoredWithdrawalTransaction {
                                        tx: w.tx,
                                        client: w.client,
                                        amount: w.amount,
                                    },
                                ),
                            ),
                            ..next
                        },
                        r,
                    )
                } else {
                    (next, r)
                }
            },
            Transaction::Dispute(d) => {
                let touched = LedgerModel {
                    accounts: self.accounts.insert(client, account),
                    ..self
                };
                if !self.transactions.contains_key(d.tx) {
                    (touched, Err(Error::DisputeTransactionNotFound { client: d.client, tx: d.tx }))
                } else if self.transactions[d.tx].spec_client() != d.client {
                    (
                        touched,
                        Err(
                            Error::DisputeUnOwnedTransaction {
                                client: d.client,
                                tx: d.tx,
                                owner: self.transactions[d.tx].spec_client(),
                            },
                        ),
                    )
                } else {
                    self.settle(client, account.dispute(self.transactions[d.tx]))
                }
            },
            Transaction::Resolve(r) => self.settle(client, account.resolve(r.tx)),
            Transaction::Chargeback(c) => self.settle(client, account.chargeback(c.tx)),
        }
    }
}

/// The accounts and the settled transactions of one run.
#[derive(Debug)]
pub struct Ledger {
    accounts: AccountStore,
    transactions: TransactionStore,
}

impl View for Ledger {
    type V = LedgerModel;

    closed spec fn view(&self) -> LedgerModel {
        LedgerModel { accounts: self.accounts@, transactions: self.transactions@ }
    }
}

impl Default for Ledger {
    fn default() -> (r: Self)
        ensures
            r@.accounts == Map::<u16, AccountModel>::empty(),
            r@.transactions == Map::<u32, StoredTransaction>::empty(),
            r.wf(),
    {
        Ledger { accounts: AccountStore::default(), transactions: TransactionStore::default() }
    }
}

impl Ledger {
    pub closed spec fn wf(&self) -> bool {
        &&& self.accounts.wf()
        &&& forall|tx: u32| #[trigger]
            self.transactions@.contains_key(tx) ==> self.transactions@[tx].spec_tx() == tx
    }

    /// What a well-formed ledger is, it is of its model too.
    pub proof fn lemma_accounts_wf(&self)
        requires
            self.wf(),
        ensures
            self@.wf(),
    {
        self.accounts.lemma_accounts_wf();
    }

    /// A ledger over the given stores.
    pub fn new(accounts: AccountStore, transactions: TransactionStore) -> (r: Self)
        requires
            accounts.wf(),
            forall|tx: u32| #[trigger]
                transactions@.contains_key(tx) ==> transactions@[tx].spec_tx() == tx,
        ensures
            r@ == (LedgerModel { accounts: accounts@, transactions: transactions@ }),
            r.wf(),
    {
        Ledger { accounts, transactions }
    }

    /// The accounts, for reporting.
    pub fn accounts(&self) -> (r: &AccountStore)
        requires
            self.wf(),
        ensures
            r@ == self@.accounts,
            r.wf(),
    {
        &self.accounts
    }

    /// Whether the balances that `transaction` leaves fit in an `i128`, the
    /// condition under which it can be processed.
    pub fn admits(&self, transaction: &Transaction) -> (r: bool)
        requires
            self.wf(),
        ensures
            r == self@.admits(*transaction),
    {
        let client = transaction_client(transaction);
        let fresh = AccountState::new(client);
        let account = match self.accounts.get(client) {
            Some(a) => a,
            None => &fresh,
        };
        proof {
            self.lemma_accounts_wf();
        }
        if account.locked {
            return true;
        }
        let available = account.available.units;
        let held = account.held.units;
        let total = account.total.units;
        match transaction {
            Transaction::Deposit(d) => {
                available.checked_add(d.amount.units).is_some() && total.checked_add(
                    d.amount.units,
                ).is_some()
            },
            Transaction::Withdrawal(w) => {
                w.amount.units > total || (available.checked_sub(w.amount.units).is_some()
                    && total.checked_sub(w.amount.units).is_some())
            },
            Transaction::Dispute(d) => match self.transactions.get(d.tx) {
                Some(StoredTransaction::Deposit(stored)) => {
                    if stored.client != d.client || account.disputes.contains_key(&stored.tx) {
                        true
                    } else {
                        available.checked_sub(stored.amount.units).is_some() && held.checked_add(
                            stored.amount.units,
                        ).is_some()
                    }
                },
                _ => true,
            },
            Transaction::Resolve(t) => match account.disputes.get(&t.tx) {
                Some(amount) => available.checked_add(amount.units).is_some()
                    && held.checked_sub(amount.units).is_some(),
                None => true,
            },
            Transaction::Chargeback(t) => match account.disputes.get(&t.tx) {
                Some(amount) => held.checked_sub(amount.units).is_some() && total.checked_sub(
                    amount.units,
                ).is_some(),
                None => true,
            },
        }
    }

    /// Applies one event; a rejected event leaves every balance as it was.
    pub fn process(&mut self, transaction: &Transaction) -> (r: Result<(), Error>)
        requires
            old(self).wf(),
            old(self)@.admits(*transaction),
        ensures
            (final(self)@, r) == old(self)@.step(*transaction),
            final(self).wf(),
    {
        match transaction {
            Transaction::Deposit(deposit) => self.process_deposit(&deposit),
            Transaction::Withdrawal(withdrawal) => self.process_withdrawal(&withdrawal),
            Transaction::Dispute(dispute) => self.process_dispute(&dispute),
            Transaction::Resolve(resolve) => self.process_resolve(&resolve),
            Transaction::Chargeback(chargeback) => self.process_chargeback(&chargeback),
        }
    }

    fn process_deposit(&mut self, deposit: &DepositTransaction) -> (r: Result<(), Error>)
        requires
            old(self).wf(),
            old(self)@.admits(Transaction::Deposit(*deposit)),
        ensures
            (final(self)@, r) == old(self)@.step(Transaction::Deposit(*deposit)),
            final(self).wf(),
    {
        let account = self.accounts.get_or_create(deposit.client);
        let result = account.deposit(deposit.amount);
        proof {
            lemma_models_insert(old(self).accounts.states(), deposit.client, *account);
        }
        match result {
            Ok(()) => {
                self.transactions.store(deposit);
                Ok(())
            },
            Err(e) => Err(Error::from(e)),
        }
    }

    fn process_withdrawal(&mut self, withdrawal: &WithdrawalTransaction) -> (r: Result<(), Error>)
        requires
            old(self).wf(),
            old(self)@.admits(Transaction::Withdrawal(*withdrawal)),
        ensures
            (final(self)@, r) == old(self)@.step(Transaction::Withdrawal(*withdrawal)),
            final(self).wf(),
    {
        let account = self.accounts.get_or_create(withdrawal.client);
        let result = account.withdraw(withdrawal.amount);
        proof {
            lemma_models_insert(old(self).accounts.states(), withdrawal.client, *account);
        }
        match result {
            Ok(()) => {
                self.transactions.store(withdrawal);
                Ok(())
            },
            Err(e) => Err(Error::from(e)),
        }
    }

    fn process_dispute(&mut self, dispute: &DisputeTransaction) -> (r: Result<(), Error>)
        requires
            old(self).wf(),
            old(self)@.admits(Transaction::Dispute(*dispute)),
        ensures
            (final(self)@, r) == old(self)@.step(Transaction::Dispute(*dispute)),
            final(self).wf(),
    {
        let account = self.accounts.get_or_create(dispute.client);
        let result = if let Some(disputed) = self.transactions.get(dispute.tx) {
            if dispute.client != disputed.client() {
                Err(
                    Error::DisputeUnOwnedTransaction {
                        client: dispute.client,
                        tx: dispute.tx,
                        owner: disputed.client(),
                    },
                )
            } else {
                match account.dispute(disputed) {
                    Ok(()) => Ok(()),
                    Err(e) => Err(Error::from(e)),
                }
            }
        } else {
            Err(Error::DisputeTransactionNotFound { client: dispute.client, tx: dispute.tx })
        };
        proof {
            lemma_models_insert(old(self).accounts.states(), dispute.client, *account);
        }
        result
    }

    fn process_resolve(&mut self, resolve: &ResolveTransaction) -> (r: Result<(), Error>)
        requires
            old(self).wf(),
            old(self)@.admits(Transaction::Resolve(*resolve)),
        ensures
            (final(self)@, r) == old(self)@.step(Transaction::Resolve(*resolve)),
            final(self).wf(),
    {
        let account = self.accounts.get_or_create(resolve.client);
        let result = account.resolve(resolve.tx);
        proof {
            lemma_models_insert(old(self).accounts.states(), resolve.client, *account);
        }
        match result {
            Ok(()) => Ok(()),
            Err(e) => Err(Error::from(e)),
        }
    }

    fn process_chargeback(&mut self, chargeback: &ChargebackTransaction) -> (r: Result<(), Error>)
        requires
            old(self).wf(),
            old(self)@.admits(Transaction::Chargeback(*chargeback)),
        ensures
            (final(self)@, r) == old(self)@.step(Transaction::Chargeback(*chargeback)),
            final(self).wf(),
    {
        let account = self.accounts.get_or_create(chargeback.client);
        let result = account.chargeback(chargeback.tx);
        proof {
            lemma_models_insert(old(self).accounts.states(), chargeback.client, *account);
        }
        match result {
            Ok(()) => Ok(()),
            Err(e) => Err(Error::from(e)),
        }
    }
}

/// The client that an event names.
pub fn transaction_client(t: &Transaction) -> (r: u16)
    ensures
        r == t.spec_client(),
{
    match t {
        Transaction::Deposit(d) => d.client,
        Transaction::Withdrawal(w) => w.client,
        Transaction::Dispute(d) => d.client,
        Transaction::Resolve(r) => r.client,
        Transaction::Chargeback(c) => c.client,
    }
}

proof fn lemma_models_insert(states: Map<u16, AccountState>, client: u16, a: AccountState)
    ensures
        models_of(states.insert(client, a)) == models_of(states).insert(client, a@),
{
    assert(models_of(states.insert(client, a)) =~= models_of(states).insert(client, a@));
}

} // verus!
