use glowing_fiesta::amount::{Amount, DecimalParts};
use glowing_fiesta::transaction::{
    ChargebackTransaction, CsvTransaction, DepositTransaction, DisputeTransaction, RecordError,
    Transaction, WithdrawalTransaction,
};
use glowing_fiesta::transaction_type::TransactionType;

fn decimal(mantissa: i128, scale: u32) -> DecimalParts {
    DecimalParts::new(mantissa, scale).expect("a decimal in range")
}

#[test]
fn amount_scales_to_ten_thousandths() {
    assert_eq!(Amount::new(100, 2).units, 10_000);
    assert_eq!(Amount::new(15, 1).units, 15_000);
    assert_eq!(Amount::new(-7, 4).units, -7);
    assert_eq!(Amount::new(3, 0), Amount::new(30000, 4));
}

#[test]
fn ingested_amount_is_cut_toward_zero() {
    assert_eq!(Amount::from_decimal(decimal(123456789, 8)).units, 12345);
    assert_eq!(Amount::from_decimal(decimal(-123456789, 8)).units, -12345);
    assert_eq!(Amount::from_decimal(decimal(19999, 5)).units, 1999);
    assert_eq!(Amount::from_decimal(decimal(1000, 1)).units, 1_000_000);
    assert_eq!(Amount::from_decimal(decimal(12, 4)).units, 12);
    assert_eq!(Amount::from_decimal(decimal(5, 28)).units, 0);
}

#[test]
fn decimal_parts_reject_values_out_of_range() {
    assert!(DecimalParts::new(1, 29).is_none());
    assert!(DecimalParts::new(79228162514264337593543950336, 0).is_none());
    assert!(DecimalParts::new(-79228162514264337593543950335, 28).is_some());
}

#[test]
fn largest_decimal_fits() {
    let d = decimal(79228162514264337593543950335, 0);
    assert_eq!(Amount::from_decimal(d).units, 792281625142643375935439503350000);
}

#[test]
fn records_become_events() {
    let csv = |kind, client, tx, amount| CsvTransaction { kind, client, tx, amount };
    assert_eq!(
        Transaction::try_from(csv(TransactionType::Deposit, 1, 1, Some(decimal(10, 1)))),
        Ok(Transaction::Deposit(DepositTransaction { client: 1, tx: 1, amount: Amount::new(10, 1) }))
    );
    assert_eq!(
        Transaction::try_from(csv(TransactionType::Withdrawal, 2, 2, Some(decimal(200001, 5)))),
        Ok(Transaction::Withdrawal(WithdrawalTransaction {
            client: 2,
            tx: 2,
            amount: Amount::new(20000, 4)
        }))
    );
    assert_eq!(
        Transaction::try_from(csv(TransactionType::Dispute, 3, 3, Some(decimal(5, 0)))),
        Ok(Transaction::Dispute(DisputeTransaction { client: 3, tx: 3 }))
    );
    assert_eq!(
        Transaction::try_from(csv(TransactionType::Chargeback, 5, 5, None)),
        Ok(Transaction::Chargeback(ChargebackTransaction { client: 5, tx: 5 }))
    );
}

#[test]
fn deposit_or_withdrawal_without_amount_is_malformed() {
    let deposit = CsvTransaction { kind: TransactionType::Deposit, client: 1, tx: 2, amount: None };
    assert_eq!(
        Transaction::try_from(deposit),
        Err(RecordError::MissingAmount { kind: TransactionType::Deposit })
    );
    let withdrawal =
        CsvTransaction { kind: TransactionType::Withdrawal, client: 1, tx: 2, amount: None };
    assert_eq!(
        Transaction::try_from(withdrawal),
        Err(RecordError::MissingAmount { kind: TransactionType::Withdrawal })
    );
}
