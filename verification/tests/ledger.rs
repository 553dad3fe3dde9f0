//! The share ledger: transfers, allowances, conservation and the event log.

use zeit_fund::Error;
use zeit_fund::events::Approval;
use zeit_fund::events::Notification;
use zeit_fund::events::Transfer;
use zeit_fund::fund::ZeitFund;

const FUND_ADDRESS: u128 = 500;
const WALLET_ADDRESS: u128 = 501;

/// A fully funded fund without the manager lock: the manager holds 400 and
/// a second account holds 600 of a 1000-share supply.
fn funded_fund() -> ZeitFund {
    let mut f = ZeitFund::new(1, 1_000, false, FUND_ADDRESS, WALLET_ADDRESS);
    f.fund(1, 400, 1, true, true).unwrap();
    f.fund(2, 600, 2, true, true).unwrap();
    assert!(f.is_funded());
    f
}

#[test]
fn transfer_moves_shares() {
    let mut f = funded_fund();
    f.transfer(2, 3, 250, 3, true, true).unwrap();
    assert_eq!(f.balance_of(2), 350);
    assert_eq!(f.balance_of(3), 250);
    assert_eq!(f.balance_of(1), 400);
}

#[test]
fn transfer_rejects_insufficient_balance() {
    let mut f = funded_fund();
    let res = f.transfer(2, 3, 601, 3, true, true);
    assert_eq!(res, Err(Error::InsufficientBalance));
    assert_eq!(f.balance_of(2), 600);
    assert_eq!(f.balance_of(3), 0);
}

#[test]
fn transfer_to_self_changes_nothing() {
    let mut f = funded_fund();
    f.transfer(2, 2, 100, 3, true, true).unwrap();
    assert_eq!(f.balance_of(2), 600);
}

#[test]
fn transfer_to_reservoir_is_reminted() {
    // Shares sent to the reservoir before the goal is reached are handed out
    // again by later funding.
    let mut f = ZeitFund::new(1, 1_000, false, FUND_ADDRESS, WALLET_ADDRESS);
    f.fund(2, 600, 1, true, true).unwrap();
    f.transfer(2, 0, 100, 2, true, true).unwrap();
    assert_eq!(f.balance_of(0), 500);
    assert_eq!(f.initial_funding_amount(), 600);
    f.fund(3, 400, 3, true, true).unwrap();
    assert!(f.is_funded());
    assert_eq!(f.balance_of(0), 100);
}

#[test]
fn approve_overwrites_and_reads_back() {
    let mut f = funded_fund();
    assert_eq!(f.allowance(2, 9), 0);
    f.approve(2, 9, 150).unwrap();
    assert_eq!(f.allowance(2, 9), 150);
    f.approve(2, 9, 40).unwrap();
    assert_eq!(f.allowance(2, 9), 40);
    assert_eq!(f.allowance(9, 2), 0);
}

#[test]
fn transfer_from_spends_allowance() {
    let mut f = funded_fund();
    f.approve(2, 9, 150).unwrap();
    f.transfer_from(9, 2, 3, 100, 3, true, true).unwrap();
    assert_eq!(f.balance_of(2), 500);
    assert_eq!(f.balance_of(3), 100);
    assert_eq!(f.allowance(2, 9), 50);
}

#[test]
fn transfer_from_rejects_insufficient_allowance() {
    let mut f = funded_fund();
    f.approve(2, 9, 99).unwrap();
    let res = f.transfer_from(9, 2, 3, 100, 3, true, true);
    assert_eq!(res, Err(Error::InsufficientAllowance));
    assert_eq!(f.allowance(2, 9), 99);
    assert_eq!(f.balance_of(2), 600);
}

#[test]
fn transfer_from_checks_allowance_before_balance() {
    let mut f = funded_fund();
    let res = f.transfer_from(9, 2, 3, 10_000, 3, true, true);
    assert_eq!(res, Err(Error::InsufficientAllowance));
    f.approve(2, 9, 10_000).unwrap();
    let res = f.transfer_from(9, 2, 3, 10_000, 4, true, true);
    assert_eq!(res, Err(Error::InsufficientBalance));
    assert_eq!(f.allowance(2, 9), 10_000);
}

#[test]
fn transfer_from_manager_lock_applies_to_pulls() {
    // The lock also stops allowance-based pulls whose source is the manager.
    let mut f = ZeitFund::new(1, 1_000, true, FUND_ADDRESS, WALLET_ADDRESS);
    f.fund(1, 1_000, 1, true, true).unwrap();
    f.approve(1, 9, 500).unwrap();
    let res = f.transfer_from(9, 1, 3, 500, 2, true, true);
    assert_eq!(res, Err(Error::ManagerSharesAreLocked));
    assert_eq!(f.allowance(1, 9), 500);
    assert_eq!(f.balance_of(1), 1_000);
}

#[test]
fn conservation_holds_across_operations() {
    let mut f = funded_fund();
    f.transfer(2, 3, 250, 3, true, true).unwrap();
    f.approve(3, 9, 250).unwrap();
    f.transfer_from(9, 3, 4, 100, 4, true, true).unwrap();
    let _ = f.transfer(4, 5, 1_000, 5, true, true);
    let sum = f.balance_of(0) + f.balance_of(1) + f.balance_of(2) + f.balance_of(3)
        + f.balance_of(4) + f.balance_of(5) + f.balance_of(9);
    assert_eq!(sum, f.total_supply());
}

#[test]
fn event_log_records_approvals_and_transfers() {
    let mut f = ZeitFund::new(1, 1_000, false, FUND_ADDRESS, WALLET_ADDRESS);
    f.fund(2, 1_000, 1, true, true).unwrap();
    f.approve(2, 9, 150).unwrap();
    f.transfer(2, 3, 100, 2, true, true).unwrap();
    assert_eq!(f.events.len(), 3);
    assert_eq!(
        f.events[0],
        Notification::Transfer(Transfer { from: Some(0), to: Some(2), value: 1_000 })
    );
    assert_eq!(
        f.events[1],
        Notification::Approval(Approval { owner: 2, spender: 9, value: 150 })
    );
    assert_eq!(
        f.events[2],
        Notification::Transfer(Transfer { from: Some(2), to: Some(3), value: 100 })
    );
}

#[test]
fn queries_report_the_configuration() {
    let f = ZeitFund::new(7, 123_456, true, FUND_ADDRESS, WALLET_ADDRESS);
    assert_eq!(f.total_supply(), 123_456);
    assert_eq!(f.initial_funding_amount(), 0);
    assert!(!f.is_funded());
    assert_eq!(f.manager_shares(), 0);
    assert!(f.manager_is_locked());
    assert_eq!(f.dividend_wallet(), WALLET_ADDRESS);
    assert_eq!(f.dividend_wallet_fund(), FUND_ADDRESS);
    assert_eq!(f.balance_of(0), 123_456);
    assert_eq!(f.last_dividend_claim(7), 0);
}
