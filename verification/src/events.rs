//! Notifications appended to the fund's event log.
//!
//! The log is append-only and is not consulted by any entry point; it records,
//! in order, every observable action the ledger took.

use vstd::prelude::*;
use crate::AccountId;
use crate::Balance;
use crate::Timestamp;

verus! {

/// Emitted when shares move between accounts, minting included.
#[derive(Debug, Clone, PartialEq, Eq)]
pub struct Transfer {
    pub from: Option<AccountId>,
    pub to: Option<AccountId>,
    pub value: Balance,
}

/// Emitted when an owner grants `spender` the right to withdraw up to
/// `value` shares.
#[derive(Debug, Clone, PartialEq, Eq)]
pub struct Approval {
    pub owner: AccountId,
    pub spender: AccountId,
    pub value: Balance,
}

/// Emitted when the manager issues a dividend.
#[derive(Debug, Clone, PartialEq, Eq)]
pub struct DividendIssued {
    pub amount: Balance,
    pub timestamp: Timestamp,
}

/// Emitted when a holder's accrued dividend is disbursed.
#[derive(Debug, Clone, PartialEq, Eq)]
pub struct DividendClaimed {
    pub user: AccountId,
    pub amount: Balance,
    pub timestamp: Timestamp,
}

/// One entry of the fund's event log.
#[derive(Debug, Clone, PartialEq, Eq)]
pub enum Notification {
    Transfer(Transfer),
    Approval(Approval),
    DividendIssued(DividendIssued),
    DividendClaimed(DividendClaimed),
}

} // verus!
