//! Dividend issuance, accrual, settlement and the payout gateway.

use zeit_fund::Error;
use zeit_fund::calls::PredictionMarketsCall;
use zeit_fund::calls::SwapsCall;
use zeit_fund::calls::ZeitgeistAsset;
use zeit_fund::events::DividendClaimed;
use zeit_fund::events::DividendIssued;
use zeit_fund::events::Notification;
use zeit_fund::fund::ZeitFund;
use zeit_fund::wallet::DividendWallet;

const FUND_ADDRESS: u128 = 500;
const WALLET_ADDRESS: u128 = 501;

/// A fully funded 100_000_000_000-share fund: the manager holds a quarter,
/// account 4 the rest.
fn quartered_fund() -> ZeitFund {
    let total: u128 = 100_000_000_000;
    let mut f = ZeitFund::new(1, total, false, FUND_ADDRESS, WALLET_ADDRESS);
    f.fund(1, total / 4, 1, true, true).unwrap();
    f.fund(4, total / 4 * 3, 2, true, true).unwrap();
    assert!(f.is_funded());
    f
}

#[test]
fn issue_dividend_requires_the_manager() {
    let mut f = quartered_fund();
    let res = f.issue_dividend(4, 1_000, 3, true);
    assert_eq!(res, Err(Error::OnlyManagerAllowed));
    assert_eq!(f.dividends.len(), 0);
}

#[test]
fn issue_dividend_requires_full_funding() {
    let mut f = ZeitFund::new(1, 1_000, false, FUND_ADDRESS, WALLET_ADDRESS);
    f.fund(1, 999, 1, true, true).unwrap();
    let res = f.issue_dividend(1, 100, 2, true);
    assert_eq!(res, Err(Error::MustBeFunded));
    assert_eq!(f.dividends.len(), 0);
}

#[test]
fn issue_dividend_surfaces_a_failed_forward() {
    let mut f = quartered_fund();
    let res = f.issue_dividend(1, 1_000, 3, false);
    assert_eq!(res, Err(Error::CallRuntimeFailed));
    assert_eq!(f.dividends.len(), 0);
    assert_eq!(f.events.len(), 2);
}

#[test]
fn issue_dividend_appends_the_event() {
    let mut f = quartered_fund();
    f.issue_dividend(1, 50_000_000_000, 7, true).unwrap();
    assert_eq!(f.dividends.len(), 1);
    assert_eq!(f.dividends[0], (7, 50_000_000_000));
    assert_eq!(
        f.events[f.events.len() - 1],
        Notification::DividendIssued(DividendIssued { amount: 50_000_000_000, timestamp: 7 })
    );
}

#[test]
fn accrual_is_proportional_and_accumulates() {
    let mut f = quartered_fund();
    f.issue_dividend(1, 50_000_000_000, 3, true).unwrap();
    assert_eq!(f.calc_dividend(1), 12_500_000_000);
    assert_eq!(f.calc_dividend(4), 37_500_000_000);
    f.issue_dividend(1, 25_000_000_000, 3, true).unwrap();
    assert_eq!(f.calc_dividend(1), 18_750_000_000);
    assert_eq!(f.calc_dividend(4), 56_250_000_000);
}

#[test]
fn accrual_is_zero_without_shares() {
    let mut f = quartered_fund();
    f.issue_dividend(1, 50_000_000_000, 3, true).unwrap();
    assert_eq!(f.calc_dividend(77), 0);
}

#[test]
fn claim_disburses_then_is_idempotent() {
    let mut f = quartered_fund();
    f.issue_dividend(1, 50_000_000_000, 3, true).unwrap();
    let first = f.claim(1, 4, true);
    assert_eq!(first, Ok(12_500_000_000));
    assert_eq!(f.last_dividend_claim(1), 4);
    let second = f.claim(1, 4, true);
    assert_eq!(second, Ok(0));
    assert_eq!(f.last_dividend_claim(1), 4);
    assert_eq!(
        f.events[f.events.len() - 1],
        Notification::DividendClaimed(DividendClaimed { user: 1, amount: 12_500_000_000, timestamp: 4 })
    );
}

#[test]
fn claim_with_nothing_accrued_returns_zero() {
    let mut f = quartered_fund();
    assert_eq!(f.claim(4, 3, true), Ok(0));
    assert_eq!(f.last_dividend_claim(4), 3);
}

#[test]
fn failed_disbursal_is_surfaced_and_the_watermark_stays_advanced() {
    // The watermark moves before the gateway is instructed; a payout lost to
    // a failed disbursal is not owed again.
    let mut f = quartered_fund();
    f.issue_dividend(1, 50_000_000_000, 3, true).unwrap();
    let res = f.claim(1, 4, false);
    assert_eq!(res, Err(Error::DividendDistributionError));
    assert_eq!(f.last_dividend_claim(1), 4);
    assert_eq!(f.claim(1, 5, true), Ok(0));
}

#[test]
fn unrecognised_fund_cannot_disburse() {
    // Binding to a foreign wallet leaves claims refused even when the host
    // transfer would succeed.
    let manager: u128 = 1;
    let stranger_wallet = DividendWallet::new(WALLET_ADDRESS, 999);
    let mut f = ZeitFund::no_instantiation(manager, 1_000, false, FUND_ADDRESS, stranger_wallet);
    assert_eq!(f.dividend_wallet_fund(), 999);
    f.fund(2, 1_000, 1, true, true).unwrap();
    f.issue_dividend(1, 500, 2, true).unwrap();
    let res = f.claim(2, 3, true);
    assert_eq!(res, Err(Error::DividendDistributionError));
}

#[test]
fn transfer_settles_both_parties_first() {
    let mut f = quartered_fund();
    f.issue_dividend(1, 50_000_000_000, 3, true).unwrap();
    f.transfer(4, 1, 25_000_000_000, 4, true, true).unwrap();
    // Both parties were settled at the pre-transfer balances.
    assert_eq!(f.last_dividend_claim(4), 4);
    assert_eq!(f.last_dividend_claim(1), 4);
    let claimed: Vec<&Notification> = f
        .events
        .iter()
        .filter(|n| matches!(n, Notification::DividendClaimed(_)))
        .collect();
    assert_eq!(claimed.len(), 2);
    assert_eq!(
        *claimed[0],
        Notification::DividendClaimed(DividendClaimed { user: 4, amount: 37_500_000_000, timestamp: 4 })
    );
    assert_eq!(
        *claimed[1],
        Notification::DividendClaimed(DividendClaimed { user: 1, amount: 12_500_000_000, timestamp: 4 })
    );
    // Nothing is owed on the moved shares afterwards.
    assert_eq!(f.calc_dividend(1), 0);
    assert_eq!(f.calc_dividend(4), 0);
}

#[test]
fn transfer_aborts_when_a_party_cannot_be_paid() {
    let mut f = quartered_fund();
    f.issue_dividend(1, 50_000_000_000, 3, true).unwrap();
    let res = f.transfer(4, 1, 25_000_000_000, 4, false, true);
    assert_eq!(res, Err(Error::DividendDistributionError));
    // Balances did not move; the payer's watermark did.
    assert_eq!(f.balance_of(4), 75_000_000_000);
    assert_eq!(f.balance_of(1), 25_000_000_000);
    assert_eq!(f.last_dividend_claim(4), 4);
    // The receiver's watermark still stands where funding left it.
    assert_eq!(f.last_dividend_claim(1), 1);
}

#[test]
fn funding_zero_after_the_goal_settles_the_caller() {
    let mut f = quartered_fund();
    f.issue_dividend(1, 50_000_000_000, 3, true).unwrap();
    // A zero-value funding call is not over the ceiling; it routes through
    // the transfer choke point and settles the caller's accrual.
    f.fund(4, 0, 4, true, true).unwrap();
    assert_eq!(f.last_dividend_claim(4), 4);
    assert_eq!(f.calc_dividend(4), 0);
    assert_eq!(f.balance_of(4), 75_000_000_000);
}

#[test]
fn swap_and_market_calls_are_gated() {
    let mut f = ZeitFund::new(1, 1_000, false, FUND_ADDRESS, WALLET_ADDRESS);
    let swap = SwapsCall::SwapExactAmountIn {
        pool_id: 9,
        asset_in: ZeitgeistAsset::Ztg,
        asset_amount_in: 10,
        asset_out: ZeitgeistAsset::PoolShare,
        min_asset_amount_out: Some(1),
        max_price: None,
    };
    assert_eq!(f.swap_call(1, swap, true), Err(Error::MustBeFunded));
    f.fund(1, 1_000, 1, true, true).unwrap();
    let join = SwapsCall::PoolJoin { pool_id: 9, pool_amount: 10, max_assets_in: vec![1, 2] };
    assert_eq!(f.swap_call(2, join, true), Err(Error::OnlyManagerAllowed));
    let exit = SwapsCall::PoolExit { pool_id: 9, pool_amount: 10, min_assets_out: vec![1] };
    assert_eq!(f.swap_call(1, exit, false), Err(Error::CallRuntimeFailed));
    let out = SwapsCall::SwapExactAmountOut {
        pool_id: 9,
        asset_in: ZeitgeistAsset::ForeignAsset(3),
        max_asset_amount_in: Some(20),
        asset_out: ZeitgeistAsset::CategoricalOutcome(5, 1),
        asset_amount_out: 10,
        max_price: Some(2),
    };
    assert_eq!(f.swap_call(1, out, true), Ok(()));
    let buy = PredictionMarketsCall::BuyCompleteSet { market_id: 3, amount: 7 };
    assert_eq!(f.prediction_market_call(2, buy, true), Err(Error::OnlyManagerAllowed));
    let redeem = PredictionMarketsCall::RedeemShares { market_id: 3 };
    assert_eq!(f.prediction_market_call(1, redeem, false), Err(Error::CallRuntimeFailed));
    let sell = PredictionMarketsCall::SellCompleteSet { market_id: 3, amount: 7 };
    assert_eq!(f.prediction_market_call(1, sell, true), Ok(()));
    assert_eq!(f.balance_of(1), 1_000);
}

#[test]
fn wallet_distributes_only_for_its_fund() {
    let mut w = DividendWallet::new(WALLET_ADDRESS, FUND_ADDRESS);
    assert_eq!(w.fund(), FUND_ADDRESS);
    assert!(w.distribute(FUND_ADDRESS, 4, 100, true));
    assert!(!w.distribute(FUND_ADDRESS, 4, 100, false));
    assert!(!w.distribute(999, 4, 100, true));
}

#[test]
fn largest_supply_accrues_exactly() {
    // The largest supply the ledger admits: the whole fixed-point headroom.
    let total: u128 = u128::MAX / 1_000_000_000_000;
    let mut f = ZeitFund::new(1, total, false, FUND_ADDRESS, WALLET_ADDRESS);
    f.fund(2, total, 1, true, true).unwrap();
    f.issue_dividend(1, total, 2, true).unwrap();
    // The sole holder owns everything, so the whole amount is owed.
    assert_eq!(f.calc_dividend(2), total);
}
