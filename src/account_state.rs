//! One client's balances, lock flag and open disputes.
use crate::amount::Amount;
use crate::stored_transaction::StoredTransaction;
use std::collections::HashMap;
use vstd::prelude::*;

verus! {

broadcast use vstd::std_specs::hash::group_hash_axioms;

/// Why an account refused an operation.
#[derive(Clone, Copy, Debug, PartialEq, Eq, Structural)]
pub enum Error {
    InsufficientFunds { client: u16 },
    AccountLocked { client: u16 },
    TransactionAlreadyDisputed { client: u16, tx: u32 },
    DisputeOnWithdrawal { client: u16, tx: u32 },
    DisputeNotFound { client: u16, tx: u32 },
}

/// Whether an integer fits in an `i128`.
pub open spec fn fits(x: int) -> bool {
    i128::MIN <= x <= i128::MAX
}

/// The sum of the amounts held by a set of open disputes, in ten-thousandths.
pub open spec fn dispute_sum(disputes: Map<u32, Amount>) -> int
    decreases disputes.dom().len(),
{
    if disputes.dom().finite() && disputes.dom().len() > 0 {
        let k = disputes.dom().choose();
        disputes[k].units + dispute_sum(disputes.remove(k))
    } else {
        0
    }
}

pub proof fn lemma_dispute_sum_remove(disputes: Map<u32, Amount>, k: u32)
    requires
        disputes.dom().finite(),
        disputes.contains_key(k),
    ensures
        dispute_sum(disputes) == disputes[k].units + dispute_sum(disputes.remove(k)),
    decreases disputes.dom().len(),
{
    let c = disputes.dom().choose();
    if c != k {
        let without_c = disputes.remove(c);
        let without_k = disputes.remove(k);
        lemma_dispute_sum_remove(without_c, k);
        lemma_dispute_sum_remove(without_k, c);
        assert(without_c.remove(k) =~= without_k.remove(c));
    }
}

pub proof fn lemma_dispute_sum_insert(disputes: Map<u32, Amount>, k: u32, a: Amount)
    requires
        disputes.dom().finite(),
        !disputes.contains_key(k),
    ensures
        dispute_sum(disputes.insert(k, a)) == a.units + dispute_sum(disputes),
{
    lemma_dispute_sum_remove(disputes.insert(k, a), k);
    assert(disputes.insert(k, a).remove(k) =~= disputes);
}

/// What an account is: balances in ten-thousandths, the lock flag, and the
/// amount that each open dispute holds.
pub struct AccountModel {
    pub client: u16,
    pub available: int,
    pub held: int,
    pub total: int,
    pub locked: bool,
    pub disputes: Map<u32, Amount>,
}

impl AccountModel {
    /// A fresh account: zero balances, unlocked, no open dispute.
    pub open spec fn fresh(client: u16) -> AccountModel {
        AccountModel {
            client,
            available: 0,
            held: 0,
            total: 0,
            locked: false,
            disputes: Map::empty(),
        }
    }

    /// `total` is `available + held`, `held` is what the open disputes hold,
    /// and every balance fits in an `i128`.
    pub open spec fn wf(self) -> bool {
        &&& self.disputes.dom().finite()
        &&& self.total == self.available + self.held
        &&& self.held == dispute_sum(self.disputes)
        &&& self.in_range()
    }

    pub open spec fn in_range(self) -> bool {
        fits(self.available) && fits(self.held) && fits(self.total)
    }

    pub open spec fn deposit(self, amount: int) -> Result<AccountModel, Error> {
        if self.locked {
            Err(Error::AccountLocked { client: self.client })
        } else {
            Ok(
                AccountModel {
                    available: self.available + amount,
                    total: self.total + amount,
                    ..self
                },
            )
        }
    }

    pub open spec fn withdraw(self, amount: int) -> Result<AccountModel, Error> {
        if self.locked {
            Err(Error::AccountLocked { client: self.client })
        } else if amount > self.total {
            Err(Error::InsufficientFunds { client: self.client })
        } else {
            Ok(
                AccountModel {
                    available: self.available - amount,
                    total: self.total - amount,
                    ..self
                },
            )
        }
    }

    pub open spec fn dispute(self, stored: StoredTransaction) -> Result<AccountModel, Error> {
        if self.locked {
            Err(Error::AccountLocked { client: self.client })
        } else if self.disputes.contains_key(stored.spec_tx()) {
            Err(Error::TransactionAlreadyDisputed { client: self.client, tx: stored.spec_tx() })
        } else {
            match stored {
                StoredTransaction::Deposit(deposit) => Ok(
                    AccountModel {
                        available: self.available - deposit.amount.units,
                        held: self.held + deposit.amount.units,
                        disputes: self.disputes.insert(deposit.tx, deposit.amount),
                        ..self
                    },
                ),
                StoredTransaction::Withdrawal(withdrawal) => Err(
                    Error::DisputeOnWithdrawal { client: self.client, tx: withdrawal.tx },
                ),
            }
        }
    }

    pub open spec fn resolve(self, tx: u32) -> Result<AccountModel, Error> {
        if self.locked {
            Err(Error::AccountLocked { client: self.client })
        } else if !self.disputes.contains_key(tx) {
            Err(Error::DisputeNotFound { client: self.client, tx })
        } else {
            Ok(
                AccountModel {
                    available: self.available + self.disputes[tx].units,
                    held: self.held - self.disputes[tx].units,
                    disputes: self.disputes.remove(tx),
                    ..self
                },
            )
        }
    }

    pub open spec fn chargeback(self, tx: u32) -> Result<AccountModel, Error> {
        if self.locked {
            Err(Error::AccountLocked { client: self.client })
        } else if !self.disputes.contains_key(tx) {
            Err(Error::DisputeNotFound { client: self.client, tx })
        } else {
            Ok(
                AccountModel {
                    held: self.held - self.disputes[tx].units,
                    total: self.total - self.disputes[tx].units,
                    locked: true,
                    disputes: self.disputes.remove(tx),
                    ..self
                },
            )
        }
    }
}

/// Whether an operation's balances, where it succeeds, fit in an `i128`.
pub open spec fn stays_in_range(outcome: Result<AccountModel, Error>) -> bool {
    outcome matches Ok(after) ==> after.in_range()
}

/// The call returned what `outcome` says and left `after`: the new state on
/// success, and `before` unchanged on failure.
pub open spec fn applied(
    before: AccountModel,
    outcome: Result<AccountModel, Error>,
    r: Result<(), Error>,
    after: AccountModel,
) -> bool {
    match outcome {
        Ok(next) => r is Ok && after == next,
        Err(e) => r == Err::<(), Error>(e) && after == before,
    }
}

/// One client's account. Balances are kept in ten-thousandths; `disputes`
/// maps each open dispute to the amount it holds.
#[derive(Debug)]
pub struct AccountState {
    pub client: u16,
    pub available: Amount,
    pub held: Amount,
    pub total: Amount,
    pub locked: bool,
    pub disputes: HashMap<u32, Amount>,
}

impl View for AccountState {
    type V = AccountModel;

    open spec fn view(&self) -> AccountModel {
        AccountModel {
            client: self.client,
            available: self.available.units as int,
            held: self.held.units as int,
            total: self.total.units as int,
            locked: self.locked,
            disputes: self.disputes@,
        }
    }
}

impl AccountState {
    pub open spec fn wf(&self) -> bool {
        self@.wf()
    }

    /// A fresh account: zero balances, unlocked, no open dispute.
    pub fn new(client: u16) -> (r: Self)
        ensures
            r@ == AccountModel::fresh(client),
            r.wf(),
    {
        let r = AccountState {
            client,
            available: Amount::zero(),
            held: Amount::zero(),
            total: Amount::zero(),
            locked: false,
            disputes: HashMap::new(),
        };
        assert(r@.disputes =~= Map::empty());
        r
    }

    /// Adds `amount` to `available` and `total`, unless the account is locked.
    pub fn deposit(&mut self, amount: Amount) -> (r: Result<(), Error>)
        requires
            old(self).wf(),
            stays_in_range(old(self)@.deposit(amount.units as int)),
        ensures
            applied(old(self)@, old(self)@.deposit(amount.units as int), r, final(self)@),
            final(self).wf(),
    {
        if self.locked {
            return Err(Error::AccountLocked { client: self.client });
        }
        self.available = Amount { units: self.available.units + amount.units };
        self.total = Amount { units: self.total.units + amount.units };
        Ok(())
    }

    /// Takes `amount` from `available` and `total`, unless the account is
    /// locked or `amount` exceeds `total` (held funds count).
    pub fn withdraw(&mut self, amount: Amount) -> (r: Result<(), Error>)
        requires
            old(self).wf(),
            stays_in_range(old(self)@.withdraw(amount.units as int)),
        ensures
            applied(old(self)@, old(self)@.withdraw(amount.units as int), r, final(self)@),
            final(self).wf(),
    {
        if self.locked {
            return Err(Error::AccountLocked { client: self.client });
        }
        if amount.units > self.total.units {
            return Err(Error::InsufficientFunds { client: self.client });
        }
        self.available = Amount { units: self.available.units - amount.units };
        self.total = Amount { units: self.total.units - amount.units };
        Ok(())
    }

    /// Moves a disputed deposit's amount from `available` to `held` and opens
    /// a dispute for it. Refused on a locked account, on a transaction that is
    /// already disputed, and on a withdrawal.
    pub fn dispute(&mut self, stored_transaction: &StoredTransaction) -> (r: Result<(), Error>)
        requires
            old(self).wf(),
            stays_in_range(old(self)@.dispute(*stored_transaction)),
        ensures
            applied(old(self)@, old(self)@.dispute(*stored_transaction), r, final(self)@),
            final(self).wf(),
    {
        if self.locked {
            return Err(Error::AccountLocked { client: self.client });
        }
        if self.disputes.contains_key(&stored_transaction.tx()) {
            let client = self.client;
            let tx = stored_transaction.tx();
            return Err(Error::TransactionAlreadyDisputed { client, tx });
        }
        match stored_transaction {
            StoredTransaction::Deposit(deposit) => {
                proof {
                    lemma_dispute_sum_insert(self.disputes@, deposit.tx, deposit.amount);
                }
                self.available = Amount { units: self.available.units - deposit.amount.units };
                self.held = Amount { units: self.held.units + deposit.amount.units };
                self.disputes.insert(deposit.tx, deposit.amount);
            },
            StoredTransaction::Withdrawal(withdrawal) => {
                // Disputing a withdrawal is not a thing that a client can do.
                return Err(Error::DisputeOnWithdrawal { client: self.client, tx: withdrawal.tx });
            },
        }
        Ok(())
    }

    /// Closes the dispute on `tx` and returns its amount from `held` to
    /// `available`. Refused on a locked account or without such a dispute.
    pub fn resolve(&mut self, tx: u32) -> (r: Result<(), Error>)
        requires
            old(self).wf(),
            stays_in_range(old(self)@.resolve(tx)),
        ensures
            applied(old(self)@, old(self)@.resolve(tx), r, final(self)@),
            final(self).wf(),
    {
        if self.locked {
            return Err(Error::AccountLocked { client: self.client });
        }
        proof {
            if self.disputes@.contains_key(tx) {
                lemma_dispute_sum_remove(self.disputes@, tx);
            }
        }
        if let Some(amount) = self.disputes.remove(&tx) {
            self.available = Amount { units: self.available.units + amount.units };
            self.held = Amount { units: self.held.units - amount.units };
            Ok(())
        } else {
            assert(self.disputes@ =~= old(self).disputes@);
            Err(Error::DisputeNotFound { client: self.client, tx })
        }
    }

    /// Closes the dispute on `tx`, removes its amount from `held` and `total`,
    /// and locks the account for good. Refused on a locked account or without
    /// such a dispute.
    pub fn chargeback(&mut self, tx: u32) -> (r: Result<(), Error>)
        requires
            old(self).wf(),
            stays_in_range(old(self)@.chargeback(tx)),
        ensures
            applied(old(self)@, old(self)@.chargeback(tx), r, final(self)@),
            final(self).wf(),
    {
        if self.locked {
            return Err(Error::AccountLocked { client: self.client });
        }
        proof {
            if self.disputes@.contains_key(tx) {
                lemma_dispute_sum_remove(self.disputes@, tx);
            }
        }
        if let Some(amount) = self.disputes.remove(&tx) {
            self.held = Amount { units: self.held.units - amount.units };
            self.total = Amount { units: self.total.units - amount.units };
            self.locked = true;
            Ok(())
        } else {
            assert(self.disputes@ =~= old(self).disputes@);
            Err(Error::DisputeNotFound { client: self.client, tx })
        }
    }
}

} // verus!
