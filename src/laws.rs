//! What holds of every run of the ledger.
use crate::account_state::{
    dispute_sum, lemma_dispute_sum_insert, lemma_dispute_sum_remove, AccountModel,
    Error as AccountError,
};
use crate::account_store::account_or_fresh;
use crate::amount::Amount;
use crate::ledger::{Error, LedgerModel};
use crate::stored_transaction::StoredTransaction;
use crate::transaction::{DisputeTransaction, ResolveTransaction, ChargebackTransaction, Transaction};
use vstd::prelude::*;

verus! {

/// An account's operations keep it well formed wherever their balances fit.
pub proof fn lemma_operations_keep_wf(a: AccountModel, amount: int, stored: StoredTransaction, tx: u32)
    requires
        a.wf(),
    ensures
        a.deposit(amount) matches Ok(b) ==> (b.in_range() ==> b.wf()),
        a.withdraw(amount) matches Ok(b) ==> (b.in_range() ==> b.wf()),
        a.dispute(stored) matches Ok(b) ==> (b.in_range() ==> b.wf()),
        a.resolve(tx) matches Ok(b) ==> (b.in_range() ==> b.wf()),
        a.chargeback(tx) matches Ok(b) ==> (b.in_range() ==> b.wf()),
{
    if let StoredTransaction::Deposit(d) = stored {
        if !a.disputes.contains_key(d.tx) {
            lemma_dispute_sum_insert(a.disputes, d.tx, d.amount);
        }
    }
    if a.disputes.contains_key(tx) {
        lemma_dispute_sum_remove(a.disputes, tx);
    }
}

/// Processing an event keeps every account well formed: `total` stays
/// `available + held`, and `held` what the open disputes hold.
pub proof fn lemma_step_keeps_wf(m: LedgerModel, t: Transaction)
    requires
        m.wf(),
        m.admits(t),
    ensures
        m.step(t).0.wf(),
{
    let c = t.spec_client();
    let a = account_or_fresh(m.accounts, c);
    assert(a.wf() && a.client == c) by {
        assert(AccountModel::fresh(c).disputes =~= Map::<u32, Amount>::empty());
        assert(Map::<u32, Amount>::empty().dom() =~= Set::empty());
    }
    match t {
        Transaction::Deposit(d) => lemma_operations_keep_wf(a, d.amount.units as int, arbitrary(), 0),
        Transaction::Withdrawal(w) => lemma_operations_keep_wf(a, w.amount.units as int, arbitrary(), 0),
        Transaction::Dispute(d) => {
            if m.transactions.contains_key(d.tx) {
                lemma_operations_keep_wf(a, 0, m.transactions[d.tx], 0);
            }
        },
        Transaction::Resolve(r) => lemma_operations_keep_wf(a, 0, arbitrary(), r.tx),
        Transaction::Chargeback(k) => lemma_operations_keep_wf(a, 0, arbitrary(), k.tx),
    }
}

/// All balances are non-negative and every open dispute holds a positive
/// amount.
pub open spec fn non_negative(a: AccountModel) -> bool {
    &&& a.available >= 0
    &&& a.held >= 0
    &&& a.total >= 0
    &&& forall|k: u32| #[trigger] a.disputes.contains_key(k) ==> a.disputes[k].units > 0
}

/// Every account is well formed with non-negative balances, and every
/// settled transaction moved a positive amount.
pub open spec fn sound(m: LedgerModel) -> bool {
    &&& m.wf()
    &&& forall|c: u16| #[trigger] m.accounts.contains_key(c) ==> non_negative(m.accounts[c])
    &&& forall|tx: u32| #[trigger]
        m.transactions.contains_key(tx) ==> match m.transactions[tx] {
            StoredTransaction::Deposit(d) => d.amount.units > 0,
            StoredTransaction::Withdrawal(w) => w.amount.units > 0,
        }
}

/// A new ledger is sound.
pub proof fn lemma_empty_ledger_is_sound()
    ensures
        sound(
            LedgerModel {
                accounts: Map::<u16, AccountModel>::empty(),
                transactions: Map::<u32, StoredTransaction>::empty(),
            },
        ),
{
}

/// A deposit or a withdrawal whose amount is positive; any other event.
pub open spec fn moves_positive_amount(t: Transaction) -> bool {
    match t {
        Transaction::Deposit(d) => d.amount.units > 0,
        Transaction::Withdrawal(w) => w.amount.units > 0,
        _ => true,
    }
}

/// An event that succeeds and leaves `available` below zero: a withdrawal
/// covered by `total` but not by `available` (funds are held), or a dispute
/// of a deposit larger than what is still available, as after a withdrawal
/// of the deposited funds.
pub open spec fn takes_available_below_zero(m: LedgerModel, t: Transaction) -> bool {
    let a = account_or_fresh(m.accounts, t.spec_client());
    match t {
        Transaction::Withdrawal(w) => !a.locked && a.available < w.amount.units <= a.total,
        Transaction::Dispute(d) => {
            &&& m.transactions.contains_key(d.tx)
            &&& m.transactions[d.tx] matches StoredTransaction::Deposit(dep)
            &&& dep.client == d.client
            &&& !a.locked
            &&& !a.disputes.contains_key(d.tx)
            &&& dep.amount.units > a.available
        },
        _ => false,
    }
}

proof fn lemma_dispute_sum_bounds(disputes: Map<u32, Amount>)
    requires
        disputes.dom().finite(),
        forall|k: u32| #[trigger] disputes.contains_key(k) ==> disputes[k].units > 0,
    ensures
        dispute_sum(disputes) >= 0,
        forall|k: u32| #[trigger]
            disputes.contains_key(k) ==> dispute_sum(disputes) >= disputes[k].units,
    decreases disputes.dom().len(),
{
    if disputes.dom().len() > 0 {
        let c = disputes.dom().choose();
        lemma_dispute_sum_bounds(disputes.remove(c));
        assert forall|k: u32| #[trigger]
            disputes.contains_key(k) implies dispute_sum(disputes) >= disputes[k].units by {
            lemma_dispute_sum_remove(disputes, k);
            lemma_dispute_sum_bounds(disputes.remove(k));
        }
    }
}

/// Balances never go negative: from a sound ledger, an event with a
/// positive amount leaves it sound, unless it is one that takes `available`
/// below zero.
pub proof fn lemma_step_keeps_balances_non_negative(m: LedgerModel, t: Transaction)
    requires
        sound(m),
        m.admits(t),
        moves_positive_amount(t),
        !takes_available_below_zero(m, t),
    ensures
        sound(m.step(t).0),
{
    lemma_step_keeps_wf(m, t);
    let c = t.spec_client();
    let a = account_or_fresh(m.accounts, c);
    assert(a.wf() && non_negative(a)) by {
        assert(AccountModel::fresh(c).disputes =~= Map::<u32, Amount>::empty());
        assert(Map::<u32, Amount>::empty().dom() =~= Set::empty());
    }
    lemma_dispute_sum_bounds(a.disputes);
    match t {
        Transaction::Dispute(d) => {
            if m.transactions.contains_key(d.tx) {
                if let StoredTransaction::Deposit(dep) = m.transactions[d.tx] {
                    if !a.disputes.contains_key(d.tx) {
                        lemma_dispute_sum_insert(a.disputes, d.tx, dep.amount);
                    }
                }
            }
        },
        _ => {},
    }
    let b = m.step(t).0.accounts[c];
    assert forall|k: u32| #[trigger] b.disputes.contains_key(k) implies b.disputes[k].units > 0 by {
        if a.disputes.contains_key(k) {
            assert(a.disputes[k].units > 0);
        }
    }
}

/// Once a resolve succeeds, the same resolve fails with `DisputeNotFound`.
pub proof fn lemma_resolve_twice(m: LedgerModel, r: ResolveTransaction)
    requires
        m.wf(),
        m.step(Transaction::Resolve(r)).1 is Ok,
    ensures
        m.step(Transaction::Resolve(r)).0.step(Transaction::Resolve(r)).1 == Err::<(), Error>(
            Error::AccountStateError(AccountError::DisputeNotFound { client: r.client, tx: r.tx }),
        ),
{
}

/// Once a chargeback succeeds, the same chargeback fails: the account is
/// locked by then, so the failure is `AccountLocked`.
pub proof fn lemma_chargeback_twice(m: LedgerModel, k: ChargebackTransaction)
    requires
        m.wf(),
        m.step(Transaction::Chargeback(k)).1 is Ok,
    ensures
        m.step(Transaction::Chargeback(k)).0.step(Transaction::Chargeback(k)).1 == Err::<(), Error>(
            Error::AccountStateError(AccountError::AccountLocked { client: k.client }),
        ),
{
}

/// A locked account refuses every operation with `AccountLocked`.
pub proof fn lemma_locked_account_refuses(
    a: AccountModel,
    amount: int,
    stored: StoredTransaction,
    tx: u32,
)
    requires
        a.locked,
    ensures
        a.deposit(amount) == Err::<AccountModel, AccountError>(
            AccountError::AccountLocked { client: a.client },
        ),
        a.withdraw(amount) == Err::<AccountModel, AccountError>(
            AccountError::AccountLocked { client: a.client },
        ),
        a.dispute(stored) == Err::<AccountModel, AccountError>(
            AccountError::AccountLocked { client: a.client },
        ),
        a.resolve(tx) == Err::<AccountModel, AccountError>(
            AccountError::AccountLocked { client: a.client },
        ),
        a.chargeback(tx) == Err::<AccountModel, AccountError>(
            AccountError::AccountLocked { client: a.client },
        ),
{
}

/// An event naming a locked account leaves the ledger as it was, and fails
/// with `AccountLocked` unless it is a dispute of a transaction that is
/// unknown or owned by another client, which fails on that first.
pub proof fn lemma_locked_account_stays_put(m: LedgerModel, t: Transaction)
    requires
        m.wf(),
        m.accounts.contains_key(t.spec_client()),
        m.accounts[t.spec_client()].locked,
    ensures
        m.step(t).0 == m,
        m.step(t).1 is Err,
        !(t matches Transaction::Dispute(d) && !(m.transactions.contains_key(d.tx)
            && m.transactions[d.tx].spec_client() == d.client)) ==> m.step(t).1 == Err::<
            (),
            Error,
        >(Error::AccountStateError(AccountError::AccountLocked { client: t.spec_client() })),
{
    let c = t.spec_client();
    assert(m.accounts.insert(c, m.accounts[c]) =~= m.accounts);
}

/// Disputing a withdrawal always fails and leaves the ledger as it was (the
/// account is created if it was not there); on an unlocked account of the
/// owner with no open dispute under that identifier, the failure is
/// `DisputeOnWithdrawal`.
pub proof fn lemma_withdrawal_dispute_refused(m: LedgerModel, d: DisputeTransaction)
    requires
        m.wf(),
        m.transactions.contains_key(d.tx),
        m.transactions[d.tx] is Withdrawal,
    ensures
        m.step(Transaction::Dispute(d)).1 is Err,
        m.step(Transaction::Dispute(d)).0 == (LedgerModel {
            accounts: m.accounts.insert(d.client, account_or_fresh(m.accounts, d.client)),
            ..m
        }),
        ({
            let a = account_or_fresh(m.accounts, d.client);
            m.transactions[d.tx].spec_client() == d.client && !a.locked
                && !a.disputes.contains_key(d.tx)
        }) ==> m.step(Transaction::Dispute(d)).1 == Err::<(), Error>(
            Error::AccountStateError(AccountError::DisputeOnWithdrawal { client: d.client, tx: d.tx }),
        ),
{
}

} // verus!
