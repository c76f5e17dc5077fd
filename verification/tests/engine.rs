use bigdecimal::num_bigint::BigInt;
use bigdecimal::BigDecimal;
use rusty_ledger::account::{check_balance, update_balance, AccountBalance, AccountBalanceReq};
use rusty_ledger::decimal::{Decimal, MAX_SCALE};
use rusty_ledger::error::LedgerError;
use rusty_ledger::ledger::Ledger;
use rusty_ledger::transaction::{create, get_all, query, CreateTransReq, GetTransReq};
use std::str::FromStr;

const X: u128 = 0xa1a2a3a4_b1b2_c1c2_d1d2_d3d4d5d6d7d8;
const Y: u128 = 2;
const Z: u128 = 3;

fn dec(text: &str) -> Decimal {
    let (n, scale) = BigDecimal::from_str(text).unwrap().into_bigint_and_exponent();
    Decimal::from_parts(n.to_signed_bytes_be(), scale).unwrap()
}

fn big(d: &Decimal) -> BigDecimal {
    BigDecimal::new(BigInt::from_signed_bytes_be(&d.unscaled_bytes()), d.scale())
}

fn num(text: &str) -> BigDecimal {
    BigDecimal::from_str(text).unwrap()
}

fn ledger_with(accounts: &[(u128, &str)]) -> Ledger {
    let mut ledger = Ledger::new();
    for (id, balance) in accounts {
        ledger.open_account(*id).unwrap();
        ledger.set(*id, dec(balance)).unwrap();
    }
    ledger
}

fn balance(ledger: &Ledger, id: u128) -> BigDecimal {
    big(&ledger.get(id).unwrap())
}

fn transfer(ledger: &mut Ledger, from: u128, to: u128, amount: &str) -> Result<u128, LedgerError> {
    let req = CreateTransReq { from_account_id: from, to_account_id: to, amount: dec(amount) };
    create(ledger, &req, 1_700_000_000_000_000_000).map(|receipt| receipt.transaction_id)
}

#[test]
fn transfer_moves_the_amount() {
    let mut ledger = ledger_with(&[(X, "100.00"), (Y, "50.00")]);
    let req = CreateTransReq { from_account_id: X, to_account_id: Y, amount: dec("30.00") };
    let receipt = create(&mut ledger, &req, 42).unwrap();
    assert_eq!(receipt.transaction_id, 0);
    assert_eq!(big(&receipt.new_from), num("70.00"));
    assert_eq!(big(&receipt.new_to), num("80.00"));
    assert_eq!(balance(&ledger, X), num("70.00"));
    assert_eq!(balance(&ledger, Y), num("80.00"));
}

#[test]
fn transfer_conserves_the_sum_and_touches_no_other_account() {
    let mut ledger = ledger_with(&[(X, "100.00"), (Y, "50.00"), (Z, "7.125")]);
    transfer(&mut ledger, X, Y, "30.005").unwrap();
    assert_eq!(balance(&ledger, X) + balance(&ledger, Y), num("150.00"));
    assert_eq!(balance(&ledger, X), num("69.995"));
    assert_eq!(balance(&ledger, Y), num("80.005"));
    assert_eq!(balance(&ledger, Z), num("7.125"));
    assert!(ledger.account_exists(Z));
    assert!(!ledger.account_exists(4));
}

#[test]
fn transfer_without_funds_is_rejected_and_changes_nothing() {
    let mut ledger = ledger_with(&[(X, "20.00"), (Y, "1.00")]);
    let req = CreateTransReq { from_account_id: X, to_account_id: Y, amount: dec("25.00") };
    match create(&mut ledger, &req, 42) {
        Err(LedgerError::InsufficientFunds { new_from, new_to }) => {
            assert_eq!(big(&new_from), num("-5.00"));
            assert_eq!(big(&new_to), num("26.00"));
        }
        other => panic!("expected insufficient funds, got {:?}", other),
    }
    assert_eq!(balance(&ledger, X), num("20.00"));
    assert_eq!(balance(&ledger, Y), num("1.00"));
    assert!(get_all(&ledger).is_empty());
}

#[test]
fn transfer_of_zero_or_less_is_rejected_before_any_lookup() {
    let mut ledger = ledger_with(&[(X, "20.00"), (Y, "1.00")]);
    assert!(matches!(transfer(&mut ledger, X, Y, "0"), Err(LedgerError::InvalidAmount)));
    assert!(matches!(transfer(&mut ledger, X, Y, "0.00"), Err(LedgerError::InvalidAmount)));
    assert!(matches!(transfer(&mut ledger, X, Y, "-3.50"), Err(LedgerError::InvalidAmount)));
    assert!(matches!(transfer(&mut ledger, 77, 78, "-1"), Err(LedgerError::InvalidAmount)));
    assert_eq!(balance(&ledger, X), num("20.00"));
    assert_eq!(balance(&ledger, Y), num("1.00"));
    assert!(get_all(&ledger).is_empty());
}

#[test]
fn transfer_with_an_unknown_account_is_rejected_and_changes_nothing() {
    let mut ledger = ledger_with(&[(X, "20.00"), (Y, "1.00")]);
    match transfer(&mut ledger, X, 99, "5") {
        Err(LedgerError::AccountNotFound { account_id }) => assert_eq!(account_id, 99),
        other => panic!("expected not found, got {:?}", other),
    }
    match transfer(&mut ledger, 98, Y, "5") {
        Err(LedgerError::AccountNotFound { account_id }) => assert_eq!(account_id, 98),
        other => panic!("expected not found, got {:?}", other),
    }
    match transfer(&mut ledger, 98, 99, "5") {
        Err(LedgerError::AccountNotFound { account_id }) => assert_eq!(account_id, 98),
        other => panic!("expected not found, got {:?}", other),
    }
    assert_eq!(balance(&ledger, X), num("20.00"));
    assert_eq!(balance(&ledger, Y), num("1.00"));
    assert!(get_all(&ledger).is_empty());
}

#[test]
fn transfer_may_leave_exactly_zero() {
    let mut ledger = ledger_with(&[(X, "20.00"), (Y, "0")]);
    assert!(matches!(transfer(&mut ledger, X, Y, "20"), Ok(0)));
    assert_eq!(balance(&ledger, X), num("0"));
    assert_eq!(balance(&ledger, Y), num("20"));
}

#[test]
fn transfer_to_oneself_is_rejected() {
    let mut ledger = ledger_with(&[(X, "20.00")]);
    assert!(matches!(transfer(&mut ledger, X, X, "5"), Err(LedgerError::SameAccount)));
    assert_eq!(balance(&ledger, X), num("20.00"));
    assert!(get_all(&ledger).is_empty());
}

#[test]
fn repeated_rejection_gives_the_same_verdict() {
    let mut ledger = ledger_with(&[(X, "20.00"), (Y, "1.00")]);
    for _ in 0..3 {
        let req = CreateTransReq { from_account_id: X, to_account_id: Y, amount: dec("20.01") };
        match create(&mut ledger, &req, 42) {
            Err(LedgerError::InsufficientFunds { new_from, new_to }) => {
                assert_eq!(big(&new_from), num("-0.01"));
                assert_eq!(big(&new_to), num("21.01"));
            }
            other => panic!("expected insufficient funds, got {:?}", other),
        }
        assert_eq!(balance(&ledger, X), num("20.00"));
    }
}

#[test]
fn draining_an_account_stops_at_zero() {
    let mut ledger = ledger_with(&[(X, "50.00"), (Y, "0"), (Z, "0")]);
    let mut applied = 0;
    for i in 0..7 {
        let to = if i % 2 == 0 { Y } else { Z };
        match transfer(&mut ledger, X, to, "10.00") {
            Ok(id) => {
                assert_eq!(id, applied);
                applied += 1;
            }
            Err(LedgerError::InsufficientFunds { .. }) => assert!(i >= 5),
            Err(other) => panic!("unexpected {:?}", other),
        }
        assert!(balance(&ledger, X) >= num("0"));
    }
    assert_eq!(applied, 5);
    assert_eq!(balance(&ledger, X), num("0"));
    assert_eq!(balance(&ledger, Y), num("30"));
    assert_eq!(balance(&ledger, Z), num("20"));
    assert_eq!(get_all(&ledger).len(), 5);
}

#[test]
fn no_sequence_of_transfers_leaves_a_negative_balance() {
    let mut ledger = ledger_with(&[(X, "10"), (Y, "5"), (Z, "0.5")]);
    let steps = [
        (X, Y, "7"), (Y, Z, "12.5"), (Z, X, "0.25"), (X, Y, "4"), (Y, X, "12"), (Z, Y, "13"),
        (X, Z, "15.25"), (Z, X, "15.5"), (Z, X, "0.01"),
    ];
    for (from, to, amount) in steps {
        let _ = transfer(&mut ledger, from, to, amount);
        for id in [X, Y, Z] {
            assert!(balance(&ledger, id) >= num("0"));
        }
        assert_eq!(balance(&ledger, X) + balance(&ledger, Y) + balance(&ledger, Z), num("15.5"));
    }
}

#[test]
fn transfer_atomic_leaves_the_record_alone() {
    let mut ledger = ledger_with(&[(X, "100.00"), (Y, "50.00")]);
    let (new_from, new_to) = ledger.transfer_atomic(X, Y, &dec("30.00")).unwrap();
    assert_eq!(big(&new_from), num("70"));
    assert_eq!(big(&new_to), num("80"));
    assert_eq!(balance(&ledger, X), num("70"));
    assert!(get_all(&ledger).is_empty());
    assert!(matches!(
        ledger.transfer_atomic(X, Y, &dec("70.01")),
        Err(LedgerError::InsufficientFunds { .. })
    ));
}

#[test]
fn accounts_open_at_zero_and_only_once() {
    let mut ledger = Ledger::new();
    assert!(!ledger.account_exists(X));
    assert!(ledger.open_account(X).is_ok());
    assert!(ledger.account_exists(X));
    assert_eq!(balance(&ledger, X), num("0"));
    ledger.set(X, dec("12.50")).unwrap();
    match ledger.open_account(X) {
        Err(LedgerError::AccountExists { account_id }) => assert_eq!(account_id, X),
        other => panic!("expected a duplicate, got {:?}", other),
    }
    assert_eq!(balance(&ledger, X), num("12.50"));
}

#[test]
fn balance_of_an_unknown_account_is_not_found() {
    let ledger = ledger_with(&[(X, "20.00")]);
    match check_balance(&ledger, &AccountBalanceReq { account_id: Y }) {
        Err(LedgerError::AccountNotFound { account_id }) => assert_eq!(account_id, Y),
        other => panic!("expected not found, got {:?}", other),
    }
    assert!(matches!(ledger.get(Y), Err(LedgerError::AccountNotFound { account_id: Y })));
}

#[test]
fn setting_a_balance_checks_the_account_first_and_then_the_sign() {
    let mut ledger = ledger_with(&[(X, "20.00")]);
    let unknown = AccountBalance { account_id: Y, balance: dec("-1") };
    assert!(matches!(
        update_balance(&mut ledger, unknown),
        Err(LedgerError::AccountNotFound { account_id: Y })
    ));
    let negative = AccountBalance { account_id: X, balance: dec("-0.01") };
    assert!(matches!(update_balance(&mut ledger, negative), Err(LedgerError::NegativeBalance)));
    assert_eq!(balance(&ledger, X), num("20.00"));
    let zero = AccountBalance { account_id: X, balance: dec("0") };
    let set = update_balance(&mut ledger, zero).unwrap();
    assert_eq!(set.account_id, X);
    assert_eq!(big(&set.balance), num("0"));
    assert_eq!(balance(&ledger, X), num("0"));
}

#[test]
fn record_keeps_applied_transfers_in_order() {
    let mut ledger = ledger_with(&[(X, "100"), (Y, "0"), (Z, "0")]);
    transfer(&mut ledger, X, Y, "10").unwrap();
    let _ = transfer(&mut ledger, Y, Z, "11");
    transfer(&mut ledger, Y, Z, "4.5").unwrap();
    transfer(&mut ledger, X, Z, "1").unwrap();
    let all = get_all(&ledger);
    let seen: Vec<(u128, u128, u128, BigDecimal)> = all
        .iter()
        .map(|t| (t.id, t.from_account_id, t.to_account_id, big(&t.amount)))
        .collect();
    assert_eq!(
        seen,
        vec![(0, X, Y, num("10")), (1, Y, Z, num("4.5")), (2, X, Z, num("1"))]
    );
    assert!(all.iter().all(|t| t.created_at == Some(1_700_000_000_000_000_000)));
}

#[test]
fn history_of_an_account_names_it_as_sender_or_receiver() {
    let mut ledger = ledger_with(&[(X, "100"), (Y, "0"), (Z, "0"), (4, "0")]);
    transfer(&mut ledger, X, Y, "10").unwrap();
    transfer(&mut ledger, X, Z, "20").unwrap();
    transfer(&mut ledger, Y, Z, "5").unwrap();
    let ids = |id: u128| -> Vec<u128> {
        query(&ledger, &GetTransReq { account_id: id }).unwrap().iter().map(|t| t.id).collect()
    };
    assert_eq!(ids(X), vec![0, 1]);
    assert_eq!(ids(Y), vec![0, 2]);
    assert_eq!(ids(Z), vec![1, 2]);
    match query(&ledger, &GetTransReq { account_id: 4 }) {
        Err(LedgerError::NoTransactions { account_id }) => assert_eq!(account_id, 4),
        other => panic!("expected no transactions, got {:?}", other),
    }
    assert!(matches!(ledger.query_transactions(5), Err(LedgerError::NoTransactions { .. })));
}

#[test]
fn errors_map_to_statuses() {
    assert_eq!(LedgerError::InvalidAmount.status(), 400);
    assert_eq!(LedgerError::SameAccount.status(), 400);
    assert_eq!(LedgerError::NegativeBalance.status(), 400);
    assert_eq!(LedgerError::AccountNotFound { account_id: 1 }.status(), 404);
    assert_eq!(LedgerError::AccountExists { account_id: 1 }.status(), 409);
    assert_eq!(
        LedgerError::InsufficientFunds { new_from: dec("-1"), new_to: dec("1") }.status(),
        400
    );
    assert_eq!(LedgerError::NoTransactions { account_id: 1 }.status(), 404);
    assert_eq!(LedgerError::StoreFailure.status(), 500);
}

#[test]
fn decimals_add_and_subtract_across_scales() {
    assert_eq!(big(&dec("1.5").plus(&dec("0.25"))), num("1.75"));
    assert_eq!(big(&dec("1.5").minus(&dec("0.25"))), num("1.25"));
    assert_eq!(big(&dec("0.1").minus(&dec("100"))), num("-99.9"));
    assert_eq!(big(&dec("-7").plus(&dec("7.000"))), num("0"));
    assert_eq!(
        big(&dec("123456789012345678901234567890.000000000001").plus(&dec("1e-12"))),
        num("123456789012345678901234567890.000000000002")
    );
}

#[test]
fn decimals_compare_by_value() {
    assert!(dec("1.50").lt(&dec("1.6")));
    assert!(!dec("1.50").lt(&dec("1.5")));
    assert!(!dec("2").lt(&dec("1.999")));
    assert!(dec("-0.001").is_negative());
    assert!(!dec("0.000").is_negative());
    assert!(!dec("0.000").is_positive());
    assert!(dec("0.001").is_positive());
    assert!(!Decimal::zero().is_negative());
    assert!(!Decimal::zero().is_positive());
    assert_eq!(big(&Decimal::zero()), num("0"));
}

#[test]
fn decimals_keep_their_parts() {
    let d = Decimal::from_parts(vec![0x27, 0x10], 2).unwrap();
    assert_eq!(big(&d), num("100.00"));
    assert_eq!(d.unscaled_bytes(), vec![0x27, 0x10]);
    assert_eq!(d.scale(), 2);
    let copy = d.duplicate();
    assert_eq!(copy.unscaled_bytes(), vec![0x27, 0x10]);
    assert_eq!(copy.scale(), 2);
    let negative = Decimal::from_parts(vec![0xfb, 0x9b], 1).unwrap();
    assert_eq!(big(&negative), num("-112.5"));
    assert!(Decimal::from_parts(vec![1], MAX_SCALE).is_some());
    assert!(Decimal::from_parts(vec![1], -MAX_SCALE).is_some());
    assert!(Decimal::from_parts(vec![1], MAX_SCALE + 1).is_none());
    assert!(Decimal::from_parts(vec![1], -MAX_SCALE - 1).is_none());
}

#[test]
fn total_is_the_sum_of_all_balances_and_no_transfer_changes_it() {
    let mut ledger = Ledger::new();
    assert_eq!(big(&ledger.total()), num("0"));
    ledger = ledger_with(&[(X, "100.00"), (Y, "50.5"), (Z, "0.125")]);
    assert_eq!(big(&ledger.total()), num("150.625"));
    transfer(&mut ledger, X, Y, "30").unwrap();
    assert_eq!(big(&ledger.total()), num("150.625"));
    assert!(transfer(&mut ledger, Z, Y, "30").is_err());
    assert_eq!(big(&ledger.total()), num("150.625"));
    ledger.open_account(4).unwrap();
    assert_eq!(big(&ledger.total()), num("150.625"));
    ledger.set(Z, dec("1")).unwrap();
    assert_eq!(big(&ledger.total()), num("151.5"));
}

#[test]
fn recording_adds_an_entry_and_touches_no_balance() {
    let mut ledger = ledger_with(&[(X, "1"), (Y, "2")]);
    assert!(matches!(ledger.record(X, Y, dec("500"), None), Ok(0)));
    assert!(matches!(ledger.record(Y, X, dec("0.5"), Some(9)), Ok(1)));
    assert_eq!(balance(&ledger, X), num("1"));
    assert_eq!(balance(&ledger, Y), num("2"));
    let all = get_all(&ledger);
    assert_eq!(all.len(), 2);
    assert_eq!((all[0].id, all[0].from_account_id, all[0].to_account_id), (0, X, Y));
    assert_eq!(big(&all[0].amount), num("500"));
    assert_eq!(all[0].created_at, None);
    assert_eq!((all[1].id, all[1].from_account_id, all[1].to_account_id), (1, Y, X));
    assert_eq!(all[1].created_at, Some(9));
    assert_eq!(transfer(&mut ledger, X, Y, "1").ok(), Some(2));
}

#[test]
fn recording_is_refused_in_the_order_of_the_checks() {
    let mut ledger = ledger_with(&[(X, "1"), (Y, "2")]);
    assert!(matches!(ledger.record(X, X, dec("0"), None), Err(LedgerError::InvalidAmount)));
    assert!(matches!(ledger.record(8, 9, dec("-1"), None), Err(LedgerError::InvalidAmount)));
    assert!(matches!(ledger.record(8, 8, dec("1"), None), Err(LedgerError::SameAccount)));
    assert!(matches!(
        ledger.record(8, 9, dec("1"), None),
        Err(LedgerError::AccountNotFound { account_id: 8 })
    ));
    assert!(matches!(
        ledger.record(X, 9, dec("1"), None),
        Err(LedgerError::AccountNotFound { account_id: 9 })
    ));
    assert!(get_all(&ledger).is_empty());
}

#[test]
fn conditional_write_happens_only_on_the_expected_balance() {
    let mut ledger = ledger_with(&[(X, "10.00")]);
    assert!(matches!(ledger.compare_and_set(X, &dec("10"), dec("7.5")), Ok(true)));
    assert_eq!(balance(&ledger, X), num("7.5"));
    assert!(matches!(ledger.compare_and_set(X, &dec("10"), dec("1")), Ok(false)));
    assert!(matches!(ledger.compare_and_set(X, &dec("7.49"), dec("1")), Ok(false)));
    assert_eq!(balance(&ledger, X), num("7.5"));
    assert!(matches!(
        ledger.compare_and_set(X, &dec("7.5"), dec("-1")),
        Err(LedgerError::NegativeBalance)
    ));
    assert!(matches!(
        ledger.compare_and_set(Y, &dec("0"), dec("-1")),
        Err(LedgerError::AccountNotFound { account_id: Y })
    ));
    assert_eq!(balance(&ledger, X), num("7.5"));
    assert!(matches!(ledger.compare_and_set(X, &dec("7.50"), dec("0")), Ok(true)));
    assert_eq!(balance(&ledger, X), num("0"));
}
