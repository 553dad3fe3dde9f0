//! The ledger's laws, stated once and proved from what the entry points'
//! contracts already pin down.

use vstd::prelude::*;
use crate::AccountId;
use crate::Balance;
use crate::Error;
use crate::PRECISION;
use crate::Timestamp;
use crate::accrual::lemma_unclaimed_push;
use crate::accrual::lemma_unclaimed_settled;
use crate::accrual::unclaimed_total;
use crate::fund::ZeitFund;
use crate::table::table_sum;

verus! {

/// Conservation: in every well-formed ledger state the account balances sum
/// exactly to the total supply, so no sequence of transfer, allowance or
/// funding calls creates or destroys shares — every entry point requires and
/// re-establishes well-formedness, of which this equation is a part.
pub proof fn lemma_conservation(f: ZeitFund)
    requires
        f.well_formed(),
    ensures
        table_sum(f.balances@) == f.total_supply,
{
}

/// Funding ceiling: the cumulative funding never exceeds the total supply.
/// Together with `fund`'s contract — a payment that would overshoot is
/// refused as FundingTooMuch with the funding amount unchanged — no sequence
/// of funding calls can pass the goal.
pub proof fn lemma_funding_ceiling(f: ZeitFund)
    requires
        f.well_formed(),
    ensures
        f.funding_amount <= f.total_supply,
{
}

/// Manager lock: while the lock flag is set, a share movement whose source is
/// the manager is refused as ManagerSharesAreLocked, whatever the destination
/// and the disbursal outcomes, for every amount within the manager's balance.
/// `transfer` and `transfer_from` tie their results to this very function, so
/// the law reaches both entry points; an amount beyond the balance is refused
/// as InsufficientBalance before the lock is even consulted, and
/// `transfer_from` checks the caller's allowance before either.
pub proof fn lemma_manager_lock(
    f: ZeitFund,
    to: AccountId,
    value: Balance,
    ok_from: bool,
    ok_to: bool,
)
    requires
        f.lock_manager_shares,
        value <= f.spec_balance_of(f.manager),
    ensures
        f.spec_transfer_result(f.manager, to, value, ok_from, ok_to) == Err::<(), Error>(
            Error::ManagerSharesAreLocked,
        ),
{
}

/// Accrual accumulation: a dividend event issued after a holder's watermark
/// adds its whole amount to that holder's unclaimed pool. `issue_dividend`
/// appends exactly such an event, so successive dividends keep counting in
/// full, with no intervening claim needed; only the final proportional
/// scaling rounds.
pub proof fn lemma_accrual_accumulates(
    events: Seq<(Timestamp, Balance)>,
    w: Timestamp,
    t: Timestamp,
    a: Balance,
)
    requires
        t > w,
    ensures
        unclaimed_total(events.push((t, a)), w) == unclaimed_total(events, w) + a,
{
    lemma_unclaimed_push(events, w, t, a);
}

/// Claim idempotence: a holder whose watermark is at or past the newest
/// dividend event accrues exactly zero. A settlement at time `now` leaves the
/// watermark at `now`, and the host clock never runs backwards, so a repeated
/// `claim` with no dividend issued in between returns zero, advances the
/// watermark to the same moment, and emits nothing — by `claim`'s contract,
/// the state is unchanged.
pub proof fn lemma_settled_accrues_nothing(f: ZeitFund, user: AccountId)
    requires
        f.well_formed(),
        f.spec_last_claim(user) >= f.last_event_time(),
    ensures
        f.spec_calc_dividend(user) == 0,
        forall|payout_ok: bool| !(#[trigger] f.claim_denied(user, payout_ok)),
{
    lemma_unclaimed_settled(f.dividends@, f.spec_last_claim(user));
    let b = f.spec_balance_of(user) as int;
    if b != 0 {
        let percentage = (b * PRECISION as int) / f.total_supply as int;
        assert(0int * percentage == 0) by (nonlinear_arith);
        assert(0int / (PRECISION as int) == 0);
    }
}

} // verus!
