//! The payout gateway: a custodial wallet that holds dividend currency and
//! disburses it on the fund's instruction.
//!
//! The wallet obeys exactly one rule: it distributes only for its registered
//! fund. The physical currency movement itself is the host's work; its
//! reported outcome reaches `distribute` as a plain argument.

use vstd::prelude::*;
use crate::AccountId;
use crate::Balance;

verus! {

/// A custodial dividend wallet bound to one fund.
#[derive(Debug, Clone, PartialEq, Eq)]
pub struct DividendWallet {
    /// The wallet's own account, as assigned by the host.
    pub address: AccountId,
    /// The fund whose instructions the wallet obeys: the account that
    /// instantiated it.
    pub fund: AccountId,
}

impl DividendWallet {
    /// Creates a wallet at `address` whose registered fund is the caller that
    /// instantiated it.
    pub fn new(address: AccountId, caller: AccountId) -> (w: DividendWallet)
        ensures
            w.address == address,
            w.fund == caller,
    {
        DividendWallet { address, fund: caller }
    }

    /// The registered fund, for callers that wish to verify the binding.
    pub fn fund(&self) -> (r: AccountId)
        ensures
            r == self.fund,
    {
        self.fund
    }

    /// Disburses `amount` to `dest` on behalf of `caller`.
    ///
    /// Succeeds exactly when the caller is the registered fund and the host
    /// reports the underlying currency transfer as successful
    /// (`transfer_ok`); a call from anyone else is refused without touching
    /// the currency. The wallet's own state never changes.
    pub fn distribute(
        &mut self,
        caller: AccountId,
        dest: AccountId,
        amount: Balance,
        transfer_ok: bool,
    ) -> (r: bool)
        ensures
            *final(self) == *old(self),
            r == (caller == old(self).fund && transfer_ok),
    {
        let _ = dest;
        let _ = amount;
        if caller != self.fund {
            return false;
        }
        transfer_ok
    }
}

} // verus!
