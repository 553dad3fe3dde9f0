//! The fund itself: share ledger, funding window, dividend accrual and the
//! gates on manager-privileged actions.
//!
//! Entry points mirror a hosted deployment: the host supplies the caller's
//! identity, the block timestamp (a monotonic clock, so `now` never lags the
//! newest dividend event) and the reported outcome of each host-side currency
//! movement, all as plain arguments. Every effect on the fund's state is
//! stated exactly in the contracts.

use vstd::prelude::*;
use vstd::arithmetic::div_mod::lemma_div_is_ordered;
use vstd::arithmetic::div_mod::lemma_div_multiples_vanish;
use vstd::arithmetic::div_mod::lemma_fundamental_div_mod;
use vstd::arithmetic::div_mod::lemma_mod_bound;
use vstd::arithmetic::mul::lemma_mul_inequality;
use crate::AccountId;
use crate::Balance;
use crate::Error;
use crate::PRECISION;
use crate::RESERVOIR;
use crate::Timestamp;
use crate::accrual::amounts_total;
use crate::accrual::events_sorted;
use crate::accrual::latest_time;
use crate::accrual::lemma_amounts_prefix_le;
use crate::accrual::lemma_sorted_push;
use crate::accrual::lemma_unclaimed_settled;
use crate::accrual::lemma_unclaimed_total_bounds;
use crate::accrual::unclaimed_total;
use crate::calls::PredictionMarketsCall;
use crate::calls::SwapsCall;
use crate::events::Approval;
use crate::events::DividendClaimed;
use crate::events::DividendIssued;
use crate::events::Notification;
use crate::events::Transfer;
use crate::table::distinct_keys;
use crate::table::distinct_pairs;
use crate::table::lemma_table_get_le_sum;
use crate::table::lemma_table_sum_after_set;
use crate::table::lemma_table_two_get_le_sum;
use crate::table::pair_get;
use crate::table::table_get;
use crate::table::table_sum;
use crate::table::vec_pair_get;
use crate::table::vec_pair_set;
use crate::table::vec_table_get;
use crate::table::vec_table_set;
use crate::wallet::DividendWallet;

verus! {

/// A managed fund: a fungible share ledger over a fixed total supply, a
/// one-time funding window, and a proportional dividend-accrual engine.
pub struct ZeitFund {
    /// The single account with manager privileges.
    pub manager: AccountId,
    /// This fund's own account, as assigned by the host; the payout gateway
    /// recognises the fund by it.
    pub address: AccountId,
    /// The fixed total share supply.
    pub total_supply: Balance,
    /// Shares held per account; the reservoir's entry is created at
    /// construction.
    pub balances: Vec<(AccountId, Balance)>,
    /// Withdrawal rights: (owner, spender, remaining amount).
    pub allowances: Vec<(AccountId, AccountId, Balance)>,
    /// Cumulative consideration received through the funding window.
    pub funding_amount: Balance,
    /// Whether the manager's own shares are frozen for outbound transfers.
    pub lock_manager_shares: bool,
    /// The payout gateway that holds and disburses dividend currency.
    pub dividend_wallet: DividendWallet,
    /// Append-only history of (timestamp, amount) dividend events.
    pub dividends: Vec<(Timestamp, Balance)>,
    /// Per-account claim watermark: the time of the last settlement.
    pub last_claimed_dividend: Vec<(AccountId, Timestamp)>,
    /// Append-only log of every notification the fund emitted.
    pub events: Vec<Notification>,
}

/// The fields that no entry point ever changes after construction.
pub open spec fn same_config(pre: ZeitFund, post: ZeitFund) -> bool {
    &&& post.manager == pre.manager
    &&& post.address == pre.address
    &&& post.total_supply == pre.total_supply
    &&& post.lock_manager_shares == pre.lock_manager_shares
    &&& post.dividend_wallet == pre.dividend_wallet
}

/// The notification a settlement leaves in the log: one claim record when
/// something was disbursed, nothing when nothing was owed.
pub open spec fn claim_note(user: AccountId, amount: int, now: Timestamp) -> Seq<Notification> {
    if amount > 0 {
        seq![
            Notification::DividendClaimed(
                DividendClaimed { user, amount: amount as u128, timestamp: now },
            ),
        ]
    } else {
        Seq::<Notification>::empty()
    }
}

impl ZeitFund {
    /// The shares `a` holds; zero for unknown accounts.
    pub open spec fn spec_balance_of(self, a: AccountId) -> Balance {
        table_get(self.balances@, a, 0u128)
    }

    /// What `spender` may still withdraw from `owner`; zero when unset.
    pub open spec fn spec_allowance(self, owner: AccountId, spender: AccountId) -> Balance {
        pair_get(self.allowances@, owner, spender)
    }

    /// The time of `a`'s last settlement; zero when `a` never settled.
    pub open spec fn spec_last_claim(self, a: AccountId) -> Timestamp {
        table_get(self.last_claimed_dividend@, a, 0u64)
    }

    /// The timestamp of the newest dividend event, or zero.
    pub open spec fn last_event_time(self) -> Timestamp {
        latest_time(self.dividends@)
    }

    /// The sum of all dividend amounts ever issued.
    pub open spec fn dividend_total(self) -> int {
        amounts_total(self.dividends@)
    }

    /// Whether the funding goal has been reached.
    pub open spec fn spec_is_funded(self) -> bool {
        self.funding_amount == self.total_supply
    }

    /// Whether the payout gateway recognises this fund, so that a disbursal
    /// instruction from it is not refused outright.
    pub open spec fn payout_authorized(self) -> bool {
        self.dividend_wallet.fund == self.address
    }

    /// The dividend owed to `user` since their last settlement: the unclaimed
    /// event amounts, scaled by the share of the fund `user` currently holds.
    /// Both divisions truncate, exactly as the ledger computes them.
    pub open spec fn spec_calc_dividend(self, user: AccountId) -> int {
        let b = self.spec_balance_of(user) as int;
        if b == 0 {
            0
        } else {
            let s = unclaimed_total(self.dividends@, self.spec_last_claim(user));
            let percentage = (b * PRECISION as int) / self.total_supply as int;
            (s * percentage) / PRECISION as int
        }
    }

    /// Whether a settlement for `user` would be refused: something is owed,
    /// but the gateway does not recognise the fund or the host reports the
    /// disbursal as failed (`payout_ok` is that report).
    pub open spec fn claim_denied(self, user: AccountId, payout_ok: bool) -> bool {
        self.spec_calc_dividend(user) > 0 && !(self.payout_authorized() && payout_ok)
    }

    /// The ledger's structural invariant: distinct table keys, conservation
    /// of the share supply, the funding ceiling, a chronological event
    /// history, and bounds that keep the fixed-point accrual arithmetic
    /// within the balance type.
    pub open spec fn well_formed(self) -> bool {
        &&& distinct_keys(self.balances@)
        &&& distinct_pairs(self.allowances@)
        &&& distinct_keys(self.last_claimed_dividend@)
        &&& table_sum(self.balances@) == self.total_supply
        &&& self.funding_amount <= self.total_supply
        &&& self.total_supply <= u128::MAX as int / PRECISION as int
        &&& events_sorted(self.dividends@)
        &&& amounts_total(self.dividends@) <= u128::MAX as int / PRECISION as int
    }

    /// Creates a fund together with a fresh payout gateway bound to it: the
    /// gateway at `wallet_address` registers this fund (at `address`) as the
    /// only account it obeys. The reservoir holds the whole supply.
    pub fn new(
        manager: AccountId,
        total_shares: Balance,
        lock_manager_shares: bool,
        address: AccountId,
        wallet_address: AccountId,
    ) -> (f: ZeitFund)
        requires
            total_shares <= u128::MAX as int / PRECISION as int,
        ensures
            f.well_formed(),
            f.manager == manager,
            f.address == address,
            f.total_supply == total_shares,
            f.funding_amount == 0,
            f.lock_manager_shares == lock_manager_shares,
            f.dividend_wallet.address == wallet_address,
            f.dividend_wallet.fund == address,
            f.payout_authorized(),
            forall|a: AccountId| #[trigger]
                f.spec_balance_of(a) == (if a == RESERVOIR {
                    total_shares
                } else {
                    0u128
                }),
            f.allowances@.len() == 0,
            f.dividends@.len() == 0,
            f.last_claimed_dividend@.len() == 0,
            f.events@.len() == 0,
    {
        let dividend_wallet = DividendWallet::new(wallet_address, address);
        let mut balances: Vec<(AccountId, Balance)> = Vec::new();
        balances.push((RESERVOIR, total_shares));
        proof {
            assert(balances@ =~= seq![(RESERVOIR, total_shares)]);
            assert(balances@.drop_last() =~= Seq::<(AccountId, Balance)>::empty());
            assert(table_sum(Seq::<(AccountId, Balance)>::empty()) == 0);
            assert(table_sum(balances@) == total_shares);
            assert forall|a: AccountId| #[trigger]
                table_get(balances@, a, 0u128) == (if a == RESERVOIR {
                    total_shares
                } else {
                    0u128
                }) by {
                assert(table_get(Seq::<(AccountId, Balance)>::empty(), a, 0u128) == 0u128);
            }
        }
        ZeitFund {
            manager,
            address,
            total_supply: total_shares,
            balances,
            allowances: Vec::new(),
            funding_amount: 0,
            lock_manager_shares,
            dividend_wallet,
            dividends: Vec::new(),
            last_claimed_dividend: Vec::new(),
            events: Vec::new(),
        }
    }

    /// Creates a fund bound to a pre-existing payout gateway instead of
    /// instantiating one. Whether that gateway actually registers this fund
    /// is then the caller's responsibility; `dividend_wallet_fund` exposes
    /// the binding for a runtime check.
    pub fn no_instantiation(
        manager: AccountId,
        total_shares: Balance,
        lock_manager_shares: bool,
        address: AccountId,
        dividend_wallet: DividendWallet,
    ) -> (f: ZeitFund)
        requires
            total_shares <= u128::MAX as int / PRECISION as int,
        ensures
            f.well_formed(),
            f.manager == manager,
            f.address == address,
            f.total_supply == total_shares,
            f.funding_amount == 0,
            f.lock_manager_shares == lock_manager_shares,
            f.dividend_wallet == dividend_wallet,
            forall|a: AccountId| #[trigger]
                f.spec_balance_of(a) == (if a == RESERVOIR {
                    total_shares
                } else {
                    0u128
                }),
            f.allowances@.len() == 0,
            f.dividends@.len() == 0,
            f.last_claimed_dividend@.len() == 0,
            f.events@.len() == 0,
    {
        let mut balances: Vec<(AccountId, Balance)> = Vec::new();
        balances.push((RESERVOIR, total_shares));
        proof {
            assert(balances@ =~= seq![(RESERVOIR, total_shares)]);
            assert(balances@.drop_last() =~= Seq::<(AccountId, Balance)>::empty());
            assert(table_sum(Seq::<(AccountId, Balance)>::empty()) == 0);
            assert(table_sum(balances@) == total_shares);
            assert forall|a: AccountId| #[trigger]
                table_get(balances@, a, 0u128) == (if a == RESERVOIR {
                    total_shares
                } else {
                    0u128
                }) by {
                assert(table_get(Seq::<(AccountId, Balance)>::empty(), a, 0u128) == 0u128);
            }
        }
        ZeitFund {
            manager,
            address,
            total_supply: total_shares,
            balances,
            allowances: Vec::new(),
            funding_amount: 0,
            lock_manager_shares,
            dividend_wallet,
            dividends: Vec::new(),
            last_claimed_dividend: Vec::new(),
            events: Vec::new(),
        }
    }

    /// The fixed total share supply.
    pub fn total_supply(&self) -> (r: Balance)
        ensures
            r == self.total_supply,
    {
        self.total_supply
    }

    /// The shares `owner` holds; zero for non-existent accounts.
    pub fn balance_of(&self, owner: AccountId) -> (r: Balance)
        ensures
            r == self.spec_balance_of(owner),
    {
        vec_table_get(&self.balances, owner, 0u128)
    }

    /// What `spender` may still withdraw from `owner`; zero when no
    /// allowance has been set.
    pub fn allowance(&self, owner: AccountId, spender: AccountId) -> (r: Balance)
        ensures
            r == self.spec_allowance(owner, spender),
    {
        vec_pair_get(&self.allowances, owner, spender)
    }

    /// The cumulative consideration received through the funding window.
    pub fn initial_funding_amount(&self) -> (r: Balance)
        ensures
            r == self.funding_amount,
    {
        self.funding_amount
    }

    /// True once the funding goal has been reached.
    pub fn is_funded(&self) -> (r: bool)
        ensures
            r == self.spec_is_funded(),
    {
        self.funding_amount == self.total_supply
    }

    /// Gate: manager-privileged operations require the fund to be complete.
    fn must_be_funded(&self) -> (r: Result<(), Error>)
        ensures
            r == (if self.spec_is_funded() {
                Ok::<(), Error>(())
            } else {
                Err::<(), Error>(Error::MustBeFunded)
            }),
    {
        if !self.is_funded() {
            return Err(Error::MustBeFunded);
        }
        Ok(())
    }

    /// Gate: only the manager may proceed.
    fn only_manager(&self, caller: AccountId) -> (r: Result<(), Error>)
        ensures
            r == (if caller == self.manager {
                Ok::<(), Error>(())
            } else {
                Err::<(), Error>(Error::OnlyManagerAllowed)
            }),
    {
        if caller != self.manager {
            return Err(Error::OnlyManagerAllowed);
        }
        Ok(())
    }

    /// The shares the manager holds.
    pub fn manager_shares(&self) -> (r: Balance)
        ensures
            r == self.spec_balance_of(self.manager),
    {
        let manager = self.manager;
        self.balance_of(manager)
    }

    /// True when the manager's shares are frozen for outbound transfers.
    pub fn manager_is_locked(&self) -> (r: bool)
        ensures
            r == self.lock_manager_shares,
    {
        self.lock_manager_shares
    }

    /// The account of the payout gateway this fund instructs.
    pub fn dividend_wallet(&self) -> (r: AccountId)
        ensures
            r == self.dividend_wallet.address,
    {
        self.dividend_wallet.address
    }

    /// The fund the payout gateway registers. A mismatch with this fund's
    /// own account means dividends would be handled by a third party.
    pub fn dividend_wallet_fund(&self) -> (r: AccountId)
        ensures
            r == self.dividend_wallet.fund,
    {
        self.dividend_wallet.fund()
    }

    /// The time of `user`'s last settlement; zero when `user` never settled.
    pub fn last_dividend_claim(&self, user: AccountId) -> (r: Timestamp)
        ensures
            r == self.spec_last_claim(user),
    {
        vec_table_get(&self.last_claimed_dividend, user, 0u64)
    }

    /// Grants `spender` the right to withdraw up to `value` from the
    /// caller's account, overwriting (not adding to) any earlier allowance.
    /// Always succeeds and emits an approval notification.
    pub fn approve(&mut self, caller: AccountId, spender: AccountId, value: Balance) -> (r: Result<
        (),
        Error,
    >)
        requires
            old(self).well_formed(),
        ensures
            final(self).well_formed(),
            same_config(*old(self), *final(self)),
            final(self).funding_amount == old(self).funding_amount,
            final(self).balances@ == old(self).balances@,
            final(self).dividends@ == old(self).dividends@,
            final(self).last_claimed_dividend@ == old(self).last_claimed_dividend@,
            r == Ok::<(), Error>(()),
            final(self).spec_allowance(caller, spender) == value,
            forall|qo: AccountId, qs: AccountId|
                !(qo == caller && qs == spender) ==> #[trigger] final(self).spec_allowance(qo, qs)
                    == old(self).spec_allowance(qo, qs),
            final(self).events@ == old(self).events@.push(
                Notification::Approval(Approval { owner: caller, spender, value }),
            ),
    {
        vec_pair_set(&mut self.allowances, caller, spender, value);
        self.events.push(Notification::Approval(Approval { owner: caller, spender, value }));
        Ok(())
    }

    /// The dividend `user` is currently entitled to: every event issued
    /// strictly after `user`'s watermark counts, in proportion to the shares
    /// `user` holds now (not at issuance time; an account that acquires
    /// shares after an event and before claiming shares in it). Zero for
    /// accounts without shares, whatever the history.
    #[verifier::loop_isolation(false)]
    pub fn calc_dividend(&self, user: AccountId) -> (r: Balance)
        requires
            self.well_formed(),
        ensures
            r == self.spec_calc_dividend(user),
    {
        let last_block = vec_table_get(&self.last_claimed_dividend, user, 0u64);
        let user_balance = vec_table_get(&self.balances, user, 0u128);
        if user_balance == 0 {
            return 0;
        }
        let ghost maxdivp = u128::MAX as int / PRECISION as int;
        proof {
            lemma_fundamental_div_mod(u128::MAX as int, PRECISION as int);
            lemma_mod_bound(u128::MAX as int, PRECISION as int);
            assert(self.dividends@.subrange(0, 0) =~= Seq::<(Timestamp, Balance)>::empty());
        }
        let mut sum: Balance = 0;
        let mut i: usize = 0;
        while i < self.dividends.len()
            invariant
                i <= self.dividends@.len(),
                sum == unclaimed_total(self.dividends@.subrange(0, i as int), last_block),
            decreases self.dividends@.len() - i,
        {
            let e = self.dividends[i];
            proof {
                let sub1 = self.dividends@.subrange(0, i + 1);
                assert(sub1.drop_last() =~= self.dividends@.subrange(0, i as int));
                assert(sub1.last() == self.dividends@[i as int]);
                lemma_unclaimed_total_bounds(sub1, last_block);
                lemma_amounts_prefix_le(self.dividends@, i + 1);
            }
            if e.0 > last_block {
                sum = sum + e.1;
            }
            i = i + 1;
        }
        proof {
            assert(self.dividends@.subrange(0, self.dividends@.len() as int) =~= self.dividends@);
            lemma_unclaimed_total_bounds(self.dividends@, last_block);
            lemma_table_get_le_sum(self.balances@, user);
            assert(user_balance as int * PRECISION as int <= u128::MAX as int)
                by (nonlinear_arith)
                requires
                    user_balance as int <= maxdivp,
                    u128::MAX as int == PRECISION as int * maxdivp + u128::MAX as int % (
                    PRECISION as int),
                    u128::MAX as int % PRECISION as int >= 0,
                    PRECISION as int > 0,
            ;
        }
        let percentage = (user_balance * PRECISION) / self.total_supply;
        proof {
            let t = self.total_supply as int;
            let bp = user_balance as int * PRECISION as int;
            lemma_mul_inequality(user_balance as int, t, PRECISION as int);
            lemma_div_is_ordered(bp, t * PRECISION as int, t);
            lemma_div_multiples_vanish(PRECISION as int, t);
            assert(percentage as int <= PRECISION as int);
            assert(sum as int * percentage as int <= u128::MAX as int)
                by (nonlinear_arith)
                requires
                    0 <= sum as int <= maxdivp,
                    0 <= percentage as int <= PRECISION as int,
                    u128::MAX as int == PRECISION as int * maxdivp + u128::MAX as int % (
                    PRECISION as int),
                    u128::MAX as int % PRECISION as int >= 0,
            ;
        }
        let dividend = (sum * percentage) / PRECISION;
        dividend
    }

    /// Settles `user`'s accrual: computes what is owed, advances the
    /// watermark to `now` unconditionally (deliberately before the disbursal,
    /// so a reentrant call can never accrue more), and, when something is
    /// owed, instructs the payout gateway. A refused or failed disbursal is
    /// reported as an error with the watermark already advanced, so a payout
    /// lost that way is not owed again; that trade-off follows the
    /// watermark-then-pay policy stated above.
    fn claim_dividend(&mut self, user: AccountId, now: Timestamp, payout_ok: bool) -> (r: Result<
        Balance,
        Error,
    >)
        requires
            old(self).well_formed(),
        ensures
            final(self).well_formed(),
            same_config(*old(self), *final(self)),
            final(self).funding_amount == old(self).funding_amount,
            final(self).balances@ == old(self).balances@,
            final(self).allowances@ == old(self).allowances@,
            final(self).dividends@ == old(self).dividends@,
            forall|a: AccountId| #[trigger]
                final(self).spec_last_claim(a) == (if a == user {
                    now
                } else {
                    old(self).spec_last_claim(a)
                }),
            ({
                let d = old(self).spec_calc_dividend(user);
                if old(self).claim_denied(user, payout_ok) {
                    r == Err::<Balance, Error>(Error::DividendDistributionError)
                        && final(self).events@ == old(self).events@
                } else {
                    r == Ok::<Balance, Error>(d as u128) && final(self).events@ == old(self).events@
                        + claim_note(user, d, now)
                }
            }),
    {
        let dividend = self.calc_dividend(user);
        vec_table_set(&mut self.last_claimed_dividend, user, now);
        if dividend > 0 {
            let addr = self.address;
            let ok = self.dividend_wallet.distribute(addr, user, dividend, payout_ok);
            if !ok {
                return Err(Error::DividendDistributionError);
            }
            self.events.push(
                Notification::DividendClaimed(
                    DividendClaimed { user, amount: dividend, timestamp: now },
                ),
            );
            proof {
                assert(old(self).events@ + claim_note(
                    user,
                    old(self).spec_calc_dividend(user),
                    now,
                ) =~= final(self).events@);
            }
        } else {
            proof {
                assert(old(self).events@ + claim_note(
                    user,
                    old(self).spec_calc_dividend(user),
                    now,
                ) =~= final(self).events@);
            }
        }
        Ok(dividend)
    }

    /// Settles the caller's accrual and disburses what is owed. `payout_ok`
    /// is the host's report on the gateway's currency transfer.
    pub fn claim(&mut self, caller: AccountId, now: Timestamp, payout_ok: bool) -> (r: Result<
        Balance,
        Error,
    >)
        requires
            old(self).well_formed(),
        ensures
            final(self).well_formed(),
            same_config(*old(self), *final(self)),
            final(self).funding_amount == old(self).funding_amount,
            final(self).balances@ == old(self).balances@,
            final(self).allowances@ == old(self).allowances@,
            final(self).dividends@ == old(self).dividends@,
            forall|a: AccountId| #[trigger]
                final(self).spec_last_claim(a) == (if a == caller {
                    now
                } else {
                    old(self).spec_last_claim(a)
                }),
            ({
                let d = old(self).spec_calc_dividend(caller);
                if old(self).claim_denied(caller, payout_ok) {
                    r == Err::<Balance, Error>(Error::DividendDistributionError)
                        && final(self).events@ == old(self).events@
                } else {
                    r == Ok::<Balance, Error>(d as u128) && final(self).events@ == old(self).events@
                        + claim_note(caller, d, now)
                }
            }),
    {
        self.claim_dividend(caller, now, payout_ok)
    }
}

/// The exact result of a share movement from `from` to `to`, in the order the
/// ledger checks it: balance, then the manager lock, then the settlement of
/// each party. The dual settlement is mandatory so that moved shares never
/// carry unclaimed accrual with them.
impl ZeitFund {
    pub open spec fn spec_transfer_result(
        self,
        from: AccountId,
        to: AccountId,
        value: Balance,
        ok_from: bool,
        ok_to: bool,
    ) -> Result<(), Error> {
        if self.spec_balance_of(from) < value {
            Err(Error::InsufficientBalance)
        } else if from == self.manager && self.lock_manager_shares {
            Err(Error::ManagerSharesAreLocked)
        } else if self.claim_denied(from, ok_from) {
            Err(Error::DividendDistributionError)
        } else if to != from && self.claim_denied(to, ok_to) {
            Err(Error::DividendDistributionError)
        } else {
            Ok(())
        }
    }
}

/// How a share movement relates the ledger state after (`post`) to the state
/// before (`pre`): the result is `spec_transfer_result`; on success the
/// balances move, both parties' watermarks advance to `now`, and the log
/// gains each party's settlement note and one transfer record; a refused
/// settlement leaves balances untouched, with the watermarks and notes of
/// whatever settled before the refusal; the two pre-settlement failures
/// change nothing.
pub open spec fn transfer_outcome(
    pre: ZeitFund,
    post: ZeitFund,
    from: AccountId,
    to: AccountId,
    value: Balance,
    now: Timestamp,
    ok_from: bool,
    ok_to: bool,
    r: Result<(), Error>,
) -> bool {
    let d_from = pre.spec_calc_dividend(from);
    let d_to = if to == from {
        0int
    } else {
        pre.spec_calc_dividend(to)
    };
    &&& r == pre.spec_transfer_result(from, to, value, ok_from, ok_to)
    &&& match r {
        Ok(_) => {
            &&& forall|a: AccountId| #[trigger]
                post.spec_balance_of(a) == (if from == to {
                    pre.spec_balance_of(a)
                } else if a == from {
                    (pre.spec_balance_of(from) - value) as u128
                } else if a == to {
                    (pre.spec_balance_of(to) + value) as u128
                } else {
                    pre.spec_balance_of(a)
                })
            &&& forall|a: AccountId| #[trigger]
                post.spec_last_claim(a) == (if a == from || a == to {
                    now
                } else {
                    pre.spec_last_claim(a)
                })
            &&& post.events@ == pre.events@ + claim_note(from, d_from, now) + claim_note(
                to,
                d_to,
                now,
            ) + seq![
                Notification::Transfer(Transfer { from: Some(from), to: Some(to), value }),
            ]
        },
        Err(e) => {
            if e == Error::DividendDistributionError {
                let from_settled = !pre.claim_denied(from, ok_from);
                &&& forall|a: AccountId| #[trigger]
                    post.spec_balance_of(a) == pre.spec_balance_of(a)
                &&& forall|a: AccountId| #[trigger]
                    post.spec_last_claim(a) == (if a == from {
                        now
                    } else if a == to && from_settled {
                        now
                    } else {
                        pre.spec_last_claim(a)
                    })
                &&& post.events@ == pre.events@ + (if from_settled {
                    claim_note(from, d_from, now)
                } else {
                    Seq::<Notification>::empty()
                })
            } else {
                &&& post.balances@ == pre.balances@
                &&& post.last_claimed_dividend@ == pre.last_claimed_dividend@
                &&& post.events@ == pre.events@
            }
        },
    }
}

/// A transfer outcome only looks at the ledger's balances, watermarks and
/// event log, so it carries over to any state that agrees on those views.
pub proof fn lemma_transfer_outcome_same_views(
    pre: ZeitFund,
    x: ZeitFund,
    y: ZeitFund,
    from: AccountId,
    to: AccountId,
    value: Balance,
    now: Timestamp,
    ok_from: bool,
    ok_to: bool,
    r: Result<(), Error>,
)
    requires
        transfer_outcome(pre, x, from, to, value, now, ok_from, ok_to, r),
        y.balances@ == x.balances@,
        y.last_claimed_dividend@ == x.last_claimed_dividend@,
        y.events@ == x.events@,
    ensures
        transfer_outcome(pre, y, from, to, value, now, ok_from, ok_to, r),
{
    assert forall|a: AccountId| #[trigger] y.spec_balance_of(a) == x.spec_balance_of(a) by {}
    assert forall|a: AccountId| #[trigger] y.spec_last_claim(a) == x.spec_last_claim(a) by {}
}

impl ZeitFund {
    /// The single choke point every balance mutation routes through, minting
    /// included: it checks the balance, then the manager lock, settles the
    /// pending accrual of both parties, and only then moves the shares and
    /// records the transfer.
    fn transfer_from_to(
        &mut self,
        from: AccountId,
        to: AccountId,
        value: Balance,
        now: Timestamp,
        ok_from: bool,
        ok_to: bool,
    ) -> (r: Result<(), Error>)
        requires
            old(self).well_formed(),
            now >= old(self).last_event_time(),
        ensures
            final(self).well_formed(),
            same_config(*old(self), *final(self)),
            final(self).funding_amount == old(self).funding_amount,
            final(self).allowances@ == old(self).allowances@,
            final(self).dividends@ == old(self).dividends@,
            transfer_outcome(
                *old(self),
                *final(self),
                from,
                to,
                value,
                now,
                ok_from,
                ok_to,
                r,
            ),
    {
        let from_balance = vec_table_get(&self.balances, from, 0u128);
        if from_balance < value {
            return Err(Error::InsufficientBalance);
        }
        if from == self.manager && self.lock_manager_shares {
            return Err(Error::ManagerSharesAreLocked);
        }
        let ghost pre = *old(self);
        match self.claim_dividend(from, now, ok_from) {
            Err(e) => {
                proof {
                    assert(pre.events@ + Seq::<Notification>::empty() =~= pre.events@);
                }
                return Err(e);
            },
            Ok(_) => {},
        }
        let ghost mid1 = *self;
        proof {
            assert(mid1.last_event_time() == pre.last_event_time());
            if to != from {
                assert(mid1.spec_last_claim(to) == pre.spec_last_claim(to));
                assert(mid1.spec_calc_dividend(to) == pre.spec_calc_dividend(to));
            } else {
                assert(mid1.spec_last_claim(to) == now);
                lemma_unclaimed_settled(mid1.dividends@, now);
                assert(mid1.spec_calc_dividend(to) == 0);
            }
        }
        match self.claim_dividend(to, now, ok_to) {
            Err(e) => {
                proof {
                    assert(final(self).events@ == pre.events@ + claim_note(
                        from,
                        pre.spec_calc_dividend(from),
                        now,
                    ));
                }
                return Err(e);
            },
            Ok(_) => {},
        }
        let ghost mid2 = *self;
        proof {
            assert(mid2.balances@ == pre.balances@);
            assert(table_get(mid2.balances@, from, 0u128) == from_balance);
        }
        vec_table_set(&mut self.balances, from, from_balance - value);
        let ghost set1 = self.balances@;
        proof {
            lemma_table_sum_after_set(mid2.balances@, set1, from, (from_balance - value) as u128);
            if to != from {
                lemma_table_two_get_le_sum(mid2.balances@, from, to);
            }
        }
        let to_balance = vec_table_get(&self.balances, to, 0u128);
        vec_table_set(&mut self.balances, to, to_balance + value);
        proof {
            lemma_table_sum_after_set(set1, self.balances@, to, (to_balance + value) as u128);
        }
        self.events.push(
            Notification::Transfer(Transfer { from: Some(from), to: Some(to), value }),
        );
        proof {
            let d_from = pre.spec_calc_dividend(from);
            let d_to = if to == from {
                0int
            } else {
                pre.spec_calc_dividend(to)
            };
            assert(final(self).events@ =~= pre.events@ + claim_note(from, d_from, now)
                + claim_note(to, d_to, now) + seq![
                Notification::Transfer(Transfer { from: Some(from), to: Some(to), value }),
            ]);
            assert forall|a: AccountId| #[trigger]
                final(self).spec_last_claim(a) == (if a == from || a == to {
                    now
                } else {
                    pre.spec_last_claim(a)
                }) by {
                assert(final(self).spec_last_claim(a) == mid2.spec_last_claim(a));
                assert(mid2.spec_last_claim(a) == (if a == to {
                    now
                } else {
                    mid1.spec_last_claim(a)
                }));
            }
        }
        Ok(())
    }

    /// Moves `value` shares from the caller's account to `to`, settling both
    /// parties' pending accrual first. `ok_from` and `ok_to` are the host's
    /// reports on the two possible disbursals that the settlement may
    /// instruct; the host's clock guarantees `now` never lags the newest
    /// dividend event.
    pub fn transfer(
        &mut self,
        caller: AccountId,
        to: AccountId,
        value: Balance,
        now: Timestamp,
        ok_from: bool,
        ok_to: bool,
    ) -> (r: Result<(), Error>)
        requires
            old(self).well_formed(),
            now >= old(self).last_event_time(),
        ensures
            final(self).well_formed(),
            same_config(*old(self), *final(self)),
            final(self).funding_amount == old(self).funding_amount,
            final(self).allowances@ == old(self).allowances@,
            final(self).dividends@ == old(self).dividends@,
            transfer_outcome(
                *old(self),
                *final(self),
                caller,
                to,
                value,
                now,
                ok_from,
                ok_to,
                r,
            ),
    {
        self.transfer_from_to(caller, to, value, now, ok_from, ok_to)
    }

    /// Moves `value` shares from `from` to `to` on the caller's allowance.
    /// The allowance is checked before anything else and debited only when
    /// the movement succeeded.
    pub fn transfer_from(
        &mut self,
        caller: AccountId,
        from: AccountId,
        to: AccountId,
        value: Balance,
        now: Timestamp,
        ok_from: bool,
        ok_to: bool,
    ) -> (r: Result<(), Error>)
        requires
            old(self).well_formed(),
            now >= old(self).last_event_time(),
        ensures
            final(self).well_formed(),
            same_config(*old(self), *final(self)),
            final(self).funding_amount == old(self).funding_amount,
            final(self).dividends@ == old(self).dividends@,
            ({
                let allowance = old(self).spec_allowance(from, caller);
                if allowance < value {
                    &&& r == Err::<(), Error>(Error::InsufficientAllowance)
                    &&& final(self).balances@ == old(self).balances@
                    &&& final(self).allowances@ == old(self).allowances@
                    &&& final(self).last_claimed_dividend@ == old(self).last_claimed_dividend@
                    &&& final(self).events@ == old(self).events@
                } else {
                    &&& transfer_outcome(
                        *old(self),
                        *final(self),
                        from,
                        to,
                        value,
                        now,
                        ok_from,
                        ok_to,
                        r,
                    )
                    &&& (r == Ok::<(), Error>(()) ==> final(self).spec_allowance(from, caller)
                        == allowance - value && (forall|qo: AccountId, qs: AccountId|
                        !(qo == from && qs == caller) ==> #[trigger] final(self).spec_allowance(
                            qo,
                            qs,
                        ) == old(self).spec_allowance(qo, qs)))
                    &&& (r != Ok::<(), Error>(()) ==> final(self).allowances@ == old(
                        self,
                    ).allowances@)
                }
            }),
    {
        let allowance = vec_pair_get(&self.allowances, from, caller);
        if allowance < value {
            return Err(Error::InsufficientAllowance);
        }
        match self.transfer_from_to(from, to, value, now, ok_from, ok_to) {
            Err(e) => {
                return Err(e);
            },
            Ok(_) => {},
        }
        let ghost mid = *self;
        vec_pair_set(&mut self.allowances, from, caller, allowance - value);
        proof {
            lemma_transfer_outcome_same_views(
                *old(self),
                mid,
                *final(self),
                from,
                to,
                value,
                now,
                ok_from,
                ok_to,
                Ok(()),
            );
        }
        Ok(())
    }

    /// Accepts `value` of consideration from the caller and mints that many
    /// shares to them out of the reservoir. The ceiling is checked before any
    /// mutation: a payment that would push the cumulative funding past the
    /// total supply is refused whole, with no partial fill. Minting routes
    /// through the same choke point as every transfer, so it settles both
    /// parties and is subject to the same checks.
    pub fn fund(
        &mut self,
        caller: AccountId,
        value: Balance,
        now: Timestamp,
        ok_reservoir: bool,
        ok_caller: bool,
    ) -> (r: Result<(), Error>)
        requires
            old(self).well_formed(),
            now >= old(self).last_event_time(),
        ensures
            final(self).well_formed(),
            same_config(*old(self), *final(self)),
            final(self).allowances@ == old(self).allowances@,
            final(self).dividends@ == old(self).dividends@,
            ({
                if old(self).funding_amount + value > old(self).total_supply {
                    &&& r == Err::<(), Error>(Error::FundingTooMuch)
                    &&& final(self).funding_amount == old(self).funding_amount
                    &&& final(self).balances@ == old(self).balances@
                    &&& final(self).last_claimed_dividend@ == old(self).last_claimed_dividend@
                    &&& final(self).events@ == old(self).events@
                } else {
                    &&& transfer_outcome(
                        *old(self),
                        *final(self),
                        RESERVOIR,
                        caller,
                        value,
                        now,
                        ok_reservoir,
                        ok_caller,
                        r,
                    )
                    &&& final(self).funding_amount == (if r == Ok::<(), Error>(()) {
                        (old(self).funding_amount + value) as u128
                    } else {
                        old(self).funding_amount
                    })
                }
            }),
    {
        if value > self.total_supply - self.funding_amount {
            return Err(Error::FundingTooMuch);
        }
        match self.transfer_from_to(RESERVOIR, caller, value, now, ok_reservoir, ok_caller) {
            Err(e) => {
                return Err(e);
            },
            Ok(_) => {},
        }
        let ghost mid = *self;
        self.funding_amount = self.funding_amount + value;
        proof {
            lemma_transfer_outcome_same_views(
                *old(self),
                mid,
                *final(self),
                RESERVOIR,
                caller,
                value,
                now,
                ok_reservoir,
                ok_caller,
                Ok(()),
            );
        }
        Ok(())
    }

    /// Issues a dividend of `amount`: manager-only, only once fully funded.
    /// The amount is first forwarded to the payout gateway's custodial sink
    /// by a host currency transfer whose reported outcome is `forward_ok`; a
    /// failed forward is surfaced, and only a successful one appends the
    /// event to the history. The cumulative-amount bound keeps the accrual
    /// arithmetic within the balance type, where an unbounded history would
    /// overflow.
    pub fn issue_dividend(
        &mut self,
        caller: AccountId,
        amount: Balance,
        now: Timestamp,
        forward_ok: bool,
    ) -> (r: Result<(), Error>)
        requires
            old(self).well_formed(),
            now >= old(self).last_event_time(),
            old(self).dividend_total() + amount <= u128::MAX as int / PRECISION as int,
        ensures
            final(self).well_formed(),
            same_config(*old(self), *final(self)),
            final(self).funding_amount == old(self).funding_amount,
            final(self).balances@ == old(self).balances@,
            final(self).allowances@ == old(self).allowances@,
            final(self).last_claimed_dividend@ == old(self).last_claimed_dividend@,
            r == (if caller != old(self).manager {
                Err::<(), Error>(Error::OnlyManagerAllowed)
            } else if !old(self).spec_is_funded() {
                Err::<(), Error>(Error::MustBeFunded)
            } else if !forward_ok {
                Err::<(), Error>(Error::CallRuntimeFailed)
            } else {
                Ok::<(), Error>(())
            }),
            r == Ok::<(), Error>(()) ==> final(self).dividends@ == old(self).dividends@.push(
                (now, amount),
            ) && final(self).events@ == old(self).events@.push(
                Notification::DividendIssued(DividendIssued { amount, timestamp: now }),
            ),
            r != Ok::<(), Error>(()) ==> final(self).dividends@ == old(self).dividends@
                && final(self).events@ == old(self).events@,
    {
        match self.only_manager(caller) {
            Err(e) => {
                return Err(e);
            },
            Ok(_) => {},
        }
        match self.must_be_funded() {
            Err(e) => {
                return Err(e);
            },
            Ok(_) => {},
        }
        if !forward_ok {
            return Err(Error::CallRuntimeFailed);
        }
        self.dividends.push((now, amount));
        proof {
            lemma_sorted_push(old(self).dividends@, now, amount);
            assert(self.dividends@.drop_last() =~= old(self).dividends@);
            assert(self.dividends@.last() == (now, amount));
        }
        self.events.push(
            Notification::DividendIssued(DividendIssued { amount, timestamp: now }),
        );
        Ok(())
    }

    /// Forwards a swaps-subsystem call descriptor for the host to dispatch:
    /// manager-only, only once fully funded. The core never interprets the
    /// descriptor; `runtime_ok` is the host's report on the dispatch, a
    /// failure of which is surfaced with no local state touched.
    pub fn swap_call(&mut self, caller: AccountId, call: SwapsCall, runtime_ok: bool) -> (r: Result<
        (),
        Error,
    >)
        ensures
            *final(self) == *old(self),
            r == (if caller != old(self).manager {
                Err::<(), Error>(Error::OnlyManagerAllowed)
            } else if !old(self).spec_is_funded() {
                Err::<(), Error>(Error::MustBeFunded)
            } else if !runtime_ok {
                Err::<(), Error>(Error::CallRuntimeFailed)
            } else {
                Ok::<(), Error>(())
            }),
    {
        let _call = call;
        match self.only_manager(caller) {
            Err(e) => {
                return Err(e);
            },
            Ok(_) => {},
        }
        match self.must_be_funded() {
            Err(e) => {
                return Err(e);
            },
            Ok(_) => {},
        }
        if !runtime_ok {
            return Err(Error::CallRuntimeFailed);
        }
        Ok(())
    }

    /// Forwards a prediction-markets call descriptor for the host to
    /// dispatch, under the same gates and outcome handling as `swap_call`.
    pub fn prediction_market_call(
        &mut self,
        caller: AccountId,
        call: PredictionMarketsCall,
        runtime_ok: bool,
    ) -> (r: Result<(), Error>)
        ensures
            *final(self) == *old(self),
            r == (if caller != old(self).manager {
                Err::<(), Error>(Error::OnlyManagerAllowed)
            } else if !old(self).spec_is_funded() {
                Err::<(), Error>(Error::MustBeFunded)
            } else if !runtime_ok {
                Err::<(), Error>(Error::CallRuntimeFailed)
            } else {
                Ok::<(), Error>(())
            }),
    {
        let _call = call;
        match self.only_manager(caller) {
            Err(e) => {
                return Err(e);
            },
            Ok(_) => {},
        }
        match self.must_be_funded() {
            Err(e) => {
                return Err(e);
            },
            Ok(_) => {},
        }
        if !runtime_ok {
            return Err(Error::CallRuntimeFailed);
        }
        Ok(())
    }
}

} // verus!
