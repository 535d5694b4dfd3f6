use glowing_fiesta::account_state::{AccountState, Error as AccountError};
use glowing_fiesta::amount::Amount;
use glowing_fiesta::ledger::{Error, Ledger};
use glowing_fiesta::transaction::{
    ChargebackTransaction, DepositTransaction, DisputeTransaction, ResolveTransaction, Transaction,
    WithdrawalTransaction,
};

fn deposit(client: u16, tx: u32, amount: Amount) -> Transaction {
    Transaction::Deposit(DepositTransaction { client, tx, amount })
}

fn withdrawal(client: u16, tx: u32, amount: Amount) -> Transaction {
    Transaction::Withdrawal(WithdrawalTransaction { client, tx, amount })
}

fn dispute(client: u16, tx: u32) -> Transaction {
    Transaction::Dispute(DisputeTransaction { client, tx })
}

fn resolve(client: u16, tx: u32) -> Transaction {
    Transaction::Resolve(ResolveTransaction { client, tx })
}

fn chargeback(client: u16, tx: u32) -> Transaction {
    Transaction::Chargeback(ChargebackTransaction { client, tx })
}

fn run(ledger: &mut Ledger, t: Transaction) -> Result<(), Error> {
    assert!(ledger.admits(&t));
    ledger.process(&t)
}

/// (available, held, total, locked) of a client's account.
fn row(ledger: &Ledger, client: u16) -> (Amount, Amount, Amount, bool) {
    let a: &AccountState = ledger.accounts().get(client).expect("account exists");
    assert_eq!(a.client, client);
    assert_eq!(a.total.units, a.available.units + a.held.units);
    (a.available, a.held, a.total, a.locked)
}

fn dollars(whole: i64) -> Amount {
    Amount::new(whole, 0)
}

#[test]
fn two_deposits_add_up() {
    let mut ledger = Ledger::default();
    assert_eq!(run(&mut ledger, deposit(1, 1, Amount::new(10000, 2))), Ok(()));
    assert_eq!(run(&mut ledger, deposit(1, 2, Amount::new(20000, 2))), Ok(()));
    assert_eq!(row(&ledger, 1), (dollars(300), Amount::zero(), dollars(300), false));
    assert_eq!(dollars(300).units, 3_000_000);
}

#[test]
fn dispute_then_resolve() {
    let mut ledger = Ledger::default();
    assert_eq!(run(&mut ledger, deposit(1, 1, Amount::new(10000, 2))), Ok(()));
    assert_eq!(run(&mut ledger, dispute(1, 1)), Ok(()));
    assert_eq!(row(&ledger, 1), (Amount::zero(), dollars(100), dollars(100), false));
    assert_eq!(run(&mut ledger, resolve(1, 1)), Ok(()));
    assert_eq!(row(&ledger, 1), (dollars(100), Amount::zero(), dollars(100), false));
}

#[test]
fn chargeback_locks_and_later_deposit_fails() {
    let mut ledger = Ledger::default();
    assert_eq!(run(&mut ledger, deposit(1, 1, Amount::new(10000, 2))), Ok(()));
    assert_eq!(run(&mut ledger, dispute(1, 1)), Ok(()));
    assert_eq!(run(&mut ledger, chargeback(1, 1)), Ok(()));
    assert_eq!(row(&ledger, 1), (Amount::zero(), Amount::zero(), Amount::zero(), true));
    assert_eq!(
        run(&mut ledger, deposit(1, 2, Amount::new(10000, 2))),
        Err(Error::AccountStateError(AccountError::AccountLocked { client: 1 }))
    );
    assert_eq!(row(&ledger, 1), (Amount::zero(), Amount::zero(), Amount::zero(), true));
}

#[test]
fn dispute_of_another_clients_transaction() {
    let mut ledger = Ledger::default();
    assert_eq!(run(&mut ledger, deposit(1, 1, Amount::new(10000, 2))), Ok(()));
    assert_eq!(run(&mut ledger, deposit(2, 2, Amount::new(5000, 2))), Ok(()));
    assert_eq!(
        run(&mut ledger, dispute(1, 2)),
        Err(Error::DisputeUnOwnedTransaction { client: 1, tx: 2, owner: 2 })
    );
    assert_eq!(row(&ledger, 1), (dollars(100), Amount::zero(), dollars(100), false));
    assert_eq!(row(&ledger, 2), (dollars(50), Amount::zero(), dollars(50), false));
}

#[test]
fn withdrawal_from_fresh_account_fails() {
    let mut ledger = Ledger::default();
    assert_eq!(
        run(&mut ledger, withdrawal(1, 1, Amount::new(5000, 2))),
        Err(Error::AccountStateError(AccountError::InsufficientFunds { client: 1 }))
    );
    assert_eq!(row(&ledger, 1), (Amount::zero(), Amount::zero(), Amount::zero(), false));
}

#[test]
fn dispute_of_unknown_transaction_creates_account() {
    let mut ledger = Ledger::default();
    assert_eq!(
        run(&mut ledger, dispute(7, 9)),
        Err(Error::DisputeTransactionNotFound { client: 7, tx: 9 })
    );
    assert_eq!(row(&ledger, 7), (Amount::zero(), Amount::zero(), Amount::zero(), false));
}

#[test]
fn resolve_twice_fails_the_second_time() {
    let mut ledger = Ledger::default();
    run(&mut ledger, deposit(1, 1, dollars(10))).unwrap();
    run(&mut ledger, dispute(1, 1)).unwrap();
    assert_eq!(run(&mut ledger, resolve(1, 1)), Ok(()));
    assert_eq!(
        run(&mut ledger, resolve(1, 1)),
        Err(Error::AccountStateError(AccountError::DisputeNotFound { client: 1, tx: 1 }))
    );
    assert_eq!(row(&ledger, 1), (dollars(10), Amount::zero(), dollars(10), false));
}

#[test]
fn chargeback_twice_fails_the_second_time() {
    let mut ledger = Ledger::default();
    run(&mut ledger, deposit(1, 1, dollars(10))).unwrap();
    run(&mut ledger, dispute(1, 1)).unwrap();
    assert_eq!(run(&mut ledger, chargeback(1, 1)), Ok(()));
    assert_eq!(
        run(&mut ledger, chargeback(1, 1)),
        Err(Error::AccountStateError(AccountError::AccountLocked { client: 1 }))
    );
}

#[test]
fn locked_account_refuses_resolve_of_earlier_dispute() {
    let mut ledger = Ledger::default();
    run(&mut ledger, deposit(1, 1, dollars(100))).unwrap();
    run(&mut ledger, deposit(1, 2, dollars(100))).unwrap();
    run(&mut ledger, dispute(1, 1)).unwrap();
    run(&mut ledger, dispute(1, 2)).unwrap();
    run(&mut ledger, chargeback(1, 1)).unwrap();
    let locked = Err(Error::AccountStateError(AccountError::AccountLocked { client: 1 }));
    assert_eq!(run(&mut ledger, resolve(1, 2)), locked);
    assert_eq!(run(&mut ledger, chargeback(1, 2)), locked);
    assert_eq!(run(&mut ledger, deposit(1, 3, dollars(5))), locked);
    assert_eq!(run(&mut ledger, withdrawal(1, 4, dollars(5))), locked);
    assert_eq!(run(&mut ledger, dispute(1, 2)), locked);
    assert_eq!(row(&ledger, 1), (Amount::zero(), dollars(100), dollars(100), true));
}

#[test]
fn dispute_of_withdrawal_is_refused() {
    let mut ledger = Ledger::default();
    run(&mut ledger, deposit(1, 1, dollars(100))).unwrap();
    run(&mut ledger, withdrawal(1, 2, dollars(50))).unwrap();
    assert_eq!(
        run(&mut ledger, dispute(1, 2)),
        Err(Error::AccountStateError(AccountError::DisputeOnWithdrawal { client: 1, tx: 2 }))
    );
    assert_eq!(row(&ledger, 1), (dollars(50), Amount::zero(), dollars(50), false));
}

#[test]
fn dispute_already_in_progress() {
    let mut ledger = Ledger::default();
    run(&mut ledger, deposit(1, 1, dollars(100))).unwrap();
    run(&mut ledger, dispute(1, 1)).unwrap();
    assert_eq!(
        run(&mut ledger, dispute(1, 1)),
        Err(Error::AccountStateError(AccountError::TransactionAlreadyDisputed {
            client: 1,
            tx: 1
        }))
    );
    assert_eq!(row(&ledger, 1), (Amount::zero(), dollars(100), dollars(100), false));
}

#[test]
fn withdrawal_may_use_held_funds() {
    let mut ledger = Ledger::default();
    run(&mut ledger, deposit(1, 1, dollars(100))).unwrap();
    run(&mut ledger, dispute(1, 1)).unwrap();
    assert_eq!(run(&mut ledger, withdrawal(1, 2, dollars(60))), Ok(()));
    assert_eq!(row(&ledger, 1), (dollars(-60), dollars(100), dollars(40), false));
}

#[test]
fn rejected_deposit_cannot_be_disputed() {
    let mut ledger = Ledger::default();
    run(&mut ledger, deposit(1, 1, dollars(100))).unwrap();
    run(&mut ledger, dispute(1, 1)).unwrap();
    run(&mut ledger, chargeback(1, 1)).unwrap();
    assert!(run(&mut ledger, deposit(1, 2, dollars(5))).is_err());
    assert_eq!(run(&mut ledger, dispute(1, 2)), Err(Error::DisputeTransactionNotFound { client: 1, tx: 2 }));
}

#[test]
fn repeated_transaction_id_overwrites_the_stored_record() {
    let mut ledger = Ledger::default();
    run(&mut ledger, deposit(1, 1, dollars(100))).unwrap();
    run(&mut ledger, deposit(2, 1, dollars(30))).unwrap();
    assert_eq!(
        run(&mut ledger, dispute(1, 1)),
        Err(Error::DisputeUnOwnedTransaction { client: 1, tx: 1, owner: 2 })
    );
    assert_eq!(run(&mut ledger, dispute(2, 1)), Ok(()));
    assert_eq!(row(&ledger, 2), (Amount::zero(), dollars(30), dollars(30), false));
}

#[test]
fn every_touched_account_is_listed_once() {
    let mut ledger = Ledger::default();
    run(&mut ledger, deposit(3, 1, dollars(1))).unwrap();
    run(&mut ledger, deposit(1, 2, dollars(1))).unwrap();
    run(&mut ledger, deposit(3, 3, dollars(1))).unwrap();
    let _ = run(&mut ledger, resolve(2, 4));
    let clients: Vec<u16> = ledger.accounts().iter().iter().map(|a| a.client).collect();
    assert_eq!(clients, vec![3, 1, 2]);
}

#[test]
fn balances_beyond_i128_are_not_admitted() {
    let mut ledger = Ledger::default();
    let big = Amount { units: i128::MAX - 5 };
    assert!(ledger.admits(&deposit(1, 1, big)));
    ledger.process(&deposit(1, 1, big)).unwrap();
    assert!(!ledger.admits(&deposit(1, 2, Amount { units: 6 })));
    assert!(ledger.admits(&deposit(1, 2, Amount { units: 5 })));
    assert!(ledger.admits(&withdrawal(1, 3, Amount { units: 6 })));
}
