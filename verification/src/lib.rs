//! A managed investment-fund share ledger with proportional dividend accrual.
//!
//! A manager pools depositors' capital into a single fungible-share ledger,
//! deploys the pooled capital through delegated market calls, and periodically
//! returns profit to shareholders in proportion to their holdings. The crate
//! verifies the bookkeeping core: balances, allowances and transfers over a
//! fixed total supply, the one-time funding window with its hard ceiling, and
//! the dividend-accrual engine that computes the exact unclaimed profit owed
//! to each holder since their last settlement.
//!
//! The host environment (account identity, the block clock, value transfer and
//! runtime dispatch) stays outside the crate: entry points take the caller,
//! the current time and the reported outcome of host-side currency movements
//! as plain arguments, and every observable effect on the ledger state is
//! pinned down by the contracts.

use vstd::prelude::*;

pub mod accrual;
pub mod calls;
pub mod events;
pub mod fund;
pub mod laws;
pub mod table;
pub mod wallet;

verus! {

/// An account identity, as supplied by the host environment.
pub type AccountId = u128;

/// An amount of shares, or of the single settlement currency.
pub type Balance = u128;

/// A block timestamp reported by the host's monotonic clock.
pub type Timestamp = u64;

/// The sentinel mint-reservoir account: it holds the whole share supply at
/// construction and is drawn down as funding occurs.
pub const RESERVOIR: AccountId = 0;

/// Fixed-point scaling factor for the proportional-share computation, so that
/// the percentage term is not truncated to nothing before it multiplies the
/// dividend sum.
pub const PRECISION: Balance = 1_000_000_000_000;

/// Every failure an entry point can report. All failures are typed,
/// synchronous and non-retryable; a failed check aborts the call.
#[derive(Debug, Clone, Copy, PartialEq, Eq, Structural)]
pub enum Error {
    /// The source account holds fewer shares than the transfer asks for.
    InsufficientBalance,
    /// The caller's allowance on the source account is below the amount.
    InsufficientAllowance,
    /// A manager-privileged entry point was called by someone else.
    OnlyManagerAllowed,
    /// A manager-privileged entry point was called before the fund was
    /// completely funded.
    MustBeFunded,
    /// A funding payment would push the cumulative funding past the ceiling.
    FundingTooMuch,
    /// The manager's shares are locked and may not be moved out.
    ManagerSharesAreLocked,
    /// The host reported failure for a delegated runtime call.
    CallRuntimeFailed,
    /// The payout gateway refused or failed to disburse a dividend.
    DividendDistributionError,
}

} // verus!
