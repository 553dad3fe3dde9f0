//! Descriptors for delegated runtime calls.
//!
//! The manager acts on external markets by handing one of these descriptors
//! across the host boundary. The core never interprets a descriptor; it only
//! gates who may forward one and checks the outcome the host reports back.

use vstd::prelude::*;
use crate::AccountId;

verus! {

/// An asset of the external market subsystem.
#[derive(Debug, Clone, PartialEq, Eq)]
pub enum ZeitgeistAsset {
    CategoricalOutcome(u128, u16),
    ScalarOutcome,
    CombinatorialOutcome,
    PoolShare,
    Ztg,
    ForeignAsset(u32),
}

/// A currency movement performed by the host's asset manager.
#[derive(Debug, Clone, PartialEq, Eq)]
pub enum AssetManagerCall {
    Transfer { dest: AccountId, currency_id: ZeitgeistAsset, amount: u128 },
}

/// A call into the host's swaps subsystem.
#[derive(Debug, Clone, PartialEq, Eq)]
pub enum SwapsCall {
    PoolExit { pool_id: u128, pool_amount: u128, min_assets_out: Vec<u128> },
    PoolJoin { pool_id: u128, pool_amount: u128, max_assets_in: Vec<u128> },
    SwapExactAmountIn {
        pool_id: u128,
        asset_in: ZeitgeistAsset,
        asset_amount_in: u128,
        asset_out: ZeitgeistAsset,
        min_asset_amount_out: Option<u128>,
        max_price: Option<u128>,
    },
    SwapExactAmountOut {
        pool_id: u128,
        asset_in: ZeitgeistAsset,
        max_asset_amount_in: Option<u128>,
        asset_out: ZeitgeistAsset,
        asset_amount_out: u128,
        max_price: Option<u128>,
    },
}

/// A call into the host's prediction-markets subsystem.
#[derive(Debug, Clone, PartialEq, Eq)]
pub enum PredictionMarketsCall {
    BuyCompleteSet { market_id: u128, amount: u128 },
    RedeemShares { market_id: u128 },
    SellCompleteSet { market_id: u128, amount: u128 },
}

/// The whole vocabulary of delegated runtime calls.
#[derive(Debug, Clone, PartialEq, Eq)]
pub enum RuntimeCall {
    AssetManager(AssetManagerCall),
    Swaps(SwapsCall),
    PredictionMarkets(PredictionMarketsCall),
}

} // verus!
