//! The bridge endpoint that guards the vault, and the control flow of
//! one inbound instruction.
//!
//! [`AssetManager`] owns the per-asset rate limit states, keyed by the
//! token's address string, together with the identity of the remote
//! asset manager.  [`handle_call_message`] runs one decoded inbound
//! instruction end to end: protocol verification (with the recovery path
//! for protocol reconfigurations), identity checks, and the dispatch
//! itself.  The host layer authenticates the caller, reads balances and
//! the clock, decodes payloads, and performs the returned
//! [`DispatchAction`]; every check and state transition lives here.

use vstd::prelude::*;

use crate::address::{is_valid_string_address, spec_valid_address};
use crate::errors::ContractError;
use crate::messages::{CallMessage, Deposit, DepositEnvelope, DepositRevert, DispatchAction};
use crate::protocols::{protocol_multiset, views_of, XcallManager};
use crate::rate_limit::{
    lemma_min_reserve_in_range, spec_configured, spec_min_reserve, RateLimit, POINTS,
};

verus! {

/// The rate limit stored for `token`, scanning entries front to back.
/// Stored entry lists have pairwise-distinct keys, so at most one entry
/// can match.
pub open spec fn spec_limit_of(
    entries: Seq<(String, RateLimit)>,
    token: Seq<char>,
) -> Option<RateLimit>
    decreases entries.len(),
{
    if entries.len() == 0 {
        None
    } else if entries[0].0@ == token {
        Some(entries[0].1)
    } else {
        spec_limit_of(entries.drop_first(), token)
    }
}

/// A scan that stops at `idx` finds exactly the entry there.
proof fn lemma_limit_of_found(entries: Seq<(String, RateLimit)>, idx: int, token: Seq<char>)
    requires
        0 <= idx < entries.len(),
        entries[idx].0@ == token,
        forall|k: int| 0 <= k < idx ==> (#[trigger] entries[k]).0@ != token,
    ensures
        spec_limit_of(entries, token) == Some(entries[idx].1),
    decreases idx,
{
    if idx > 0 {
        assert(entries.drop_first()[idx - 1] == entries[idx]);
        assert(forall|k: int|
            0 <= k < idx - 1 ==> (#[trigger] entries.drop_first()[k]).0@ != token);
        lemma_limit_of_found(entries.drop_first(), idx - 1, token);
    }
}

/// A scan over entries whose keys all differ from `token` finds nothing.
proof fn lemma_limit_of_absent(entries: Seq<(String, RateLimit)>, token: Seq<char>)
    requires
        forall|k: int| 0 <= k < entries.len() ==> (#[trigger] entries[k]).0@ != token,
    ensures
        spec_limit_of(entries, token) is None,
    decreases entries.len(),
{
    if entries.len() > 0 {
        assert(forall|k: int|
            0 <= k < entries.len() - 1 ==> entries.drop_first()[k] == entries[k + 1]);
        lemma_limit_of_absent(entries.drop_first(), token);
    }
}

/// Removing the entry at `idx` from a uniquely-keyed list erases exactly
/// its own key and leaves every other lookup unchanged.
proof fn lemma_limit_of_remove(entries: Seq<(String, RateLimit)>, idx: int, token: Seq<char>)
    requires
        0 <= idx < entries.len(),
        forall|i: int, j: int|
            0 <= i < j < entries.len() ==> (#[trigger] entries[i]).0@ != (
            #[trigger] entries[j]).0@,
    ensures
        spec_limit_of(entries.remove(idx), token) == (if entries[idx].0@ == token {
            None::<RateLimit>
        } else {
            spec_limit_of(entries, token)
        }),
    decreases entries.len(),
{
    entries.remove_ensures(idx);
    if entries[idx].0@ == token {
        assert(forall|k: int|
            0 <= k < entries.remove(idx).len() ==> (#[trigger] entries.remove(idx)[k]).0@
                != token);
        lemma_limit_of_absent(entries.remove(idx), token);
    } else if idx == 0 {
        assert(entries.remove(0) =~= entries.drop_first());
    } else {
        if entries[0].0@ == token {
            assert(entries.remove(idx)[0] == entries[0]);
        } else {
            assert(entries.remove(idx).drop_first() =~= entries.drop_first().remove(idx - 1));
            lemma_limit_of_remove(entries.drop_first(), idx - 1, token);
        }
    }
}

/// Appending an entry serves lookups of its key only when no earlier
/// entry already holds that key, and leaves every other lookup as it
/// was.
proof fn lemma_limit_of_push(
    entries: Seq<(String, RateLimit)>,
    entry: (String, RateLimit),
    token: Seq<char>,
)
    ensures
        spec_limit_of(entries.push(entry), token) == (
        if spec_limit_of(entries, token) is Some {
            spec_limit_of(entries, token)
        } else if entry.0@ == token {
            Some(entry.1)
        } else {
            None::<RateLimit>
        }),
    decreases entries.len(),
{
    if entries.len() == 0 {
        assert(entries.push(entry).len() == 1);
        assert(entries.push(entry)[0] == entry);
        assert(entries.push(entry).drop_first() =~= Seq::<(String, RateLimit)>::empty());
        assert(spec_limit_of(entries.push(entry).drop_first(), token) is None);
        if entry.0@ == token {
            assert(spec_limit_of(entries.push(entry), token) == Some(entry.1));
        } else {
            assert(spec_limit_of(entries.push(entry), token) is None);
        }
    } else {
        assert(entries.push(entry)[0] == entries[0]);
        assert(entries.push(entry).drop_first() =~= entries.drop_first().push(entry));
        lemma_limit_of_push(entries.drop_first(), entry, token);
        assert(spec_limit_of(entries.push(entry).drop_first(), token) == spec_limit_of(
            entries.drop_first().push(entry),
            token,
        ));
    }
}

/// The per-asset rate limit registry of one bridge endpoint, and the
/// identity its withdrawal instructions must come from.
pub struct AssetManager {
    /// Network address of the remote asset manager.
    pub icon_asset_manager: String,
    /// One rate limit state per token address; keys are pairwise
    /// distinct.
    pub limits: Vec<(String, RateLimit)>,
}

impl AssetManager {
    /// Keys pairwise distinct, every stored state well-formed.
    pub open spec fn wf(self) -> bool {
        &&& forall|i: int, j: int|
            0 <= i < j < self.limits@.len() ==> (#[trigger] self.limits@[i]).0@ != (
            #[trigger] self.limits@[j]).0@
        &&& forall|i: int| 0 <= i < self.limits@.len() ==> (#[trigger] self.limits@[i]).1.wf()
    }

    /// A fresh endpoint with no rate limit configured.
    pub fn initialize(icon_asset_manager: String) -> (r: AssetManager)
        ensures
            r.icon_asset_manager == icon_asset_manager,
            r.limits@.len() == 0,
            r.wf(),
    {
        AssetManager { icon_asset_manager, limits: Vec::new() }
    }

    /// Index of the entry for `token`, if one is stored.
    fn find_limit_index(&self, token: &String) -> (r: Option<usize>)
        ensures
            match r {
                Some(i) => i < self.limits@.len() && self.limits@[i as int].0@ == token@
                    && spec_limit_of(self.limits@, token@) == Some(
                    self.limits@[i as int].1,
                ),
                None => spec_limit_of(self.limits@, token@) is None,
            },
    {
        let mut i: usize = 0;
        while i < self.limits.len()
            invariant
                i <= self.limits@.len(),
                forall|k: int| 0 <= k < i ==> (#[trigger] self.limits@[k]).0@ != token@,
            decreases self.limits@.len() - i,
        {
            if self.limits[i].0.eq(token) {
                proof {
                    lemma_limit_of_found(self.limits@, i as int, token@);
                }
                return Some(i);
            }
            i += 1;
        }
        proof {
            lemma_limit_of_absent(self.limits@, token@);
        }
        None
    }

    /// The stored rate limit state for `token`.
    pub fn get_rate_limit(&self, token: &String) -> (r: Result<RateLimit, ContractError>)
        ensures
            r == (match spec_limit_of(self.limits@, token@) {
                Some(rl) => Ok::<RateLimit, ContractError>(rl),
                None => Err::<RateLimit, ContractError>(ContractError::Uninitialized),
            }),
    {
        match self.find_limit_index(token) {
            Some(i) => Ok(self.limits[i].1),
            None => Err(ContractError::Uninitialized),
        }
    }

    /// Replace the entry for `token` with `state`, or add one.
    ///
    /// Only this function and `initialize` build stored entry lists, so
    /// key uniqueness is preserved crate-wide.
    fn store_limit(&mut self, token: &String, state: RateLimit)
        requires
            old(self).wf(),
            state.wf(),
        ensures
            final(self).wf(),
            final(self).icon_asset_manager == old(self).icon_asset_manager,
            spec_limit_of(final(self).limits@, token@) == Some(state),
            forall|t: Seq<char>|
                t != token@ ==> #[trigger] spec_limit_of(final(self).limits@, t)
                    == spec_limit_of(old(self).limits@, t),
    {
        let ghost entries0 = self.limits@;
        match self.find_limit_index(token) {
            Some(i) => {
                let _ = self.limits.remove(i);
                proof {
                    entries0.remove_ensures(i as int);
                    assert forall|t: Seq<char>|
                        t != token@ implies #[trigger] spec_limit_of(self.limits@, t)
                        == spec_limit_of(entries0, t) by {
                        lemma_limit_of_remove(entries0, i as int, t);
                    }
                    assert forall|k: int|
                        0 <= k < self.limits@.len() implies (#[trigger] self.limits@[k]).0@
                        != token@ by {
                        if k < i {
                            assert(self.limits@[k] == entries0[k]);
                        } else {
                            assert(self.limits@[k] == entries0[k + 1]);
                        }
                    }
                    assert forall|a: int, b: int|
                        0 <= a < b < self.limits@.len() implies (#[trigger] self.limits@[a]).0@
                        != (#[trigger] self.limits@[b]).0@ by {
                        assert(self.limits@[a] == (if a < i {
                            entries0[a]
                        } else {
                            entries0[a + 1]
                        }));
                        assert(self.limits@[b] == (if b < i {
                            entries0[b]
                        } else {
                            entries0[b + 1]
                        }));
                    }
                    assert forall|k: int|
                        0 <= k < self.limits@.len() implies (#[trigger] self.limits@[k]).1.wf()
                        by {
                        assert(self.limits@[k] == (if k < i {
                            entries0[k]
                        } else {
                            entries0[k + 1]
                        }));
                    }
                }
            },
            None => {
                proof {
                    assert forall|k: int|
                        0 <= k < self.limits@.len() implies (#[trigger] self.limits@[k]).0@
                        != token@ by {
                        if self.limits@[k].0@ == token@ {
                            lemma_limit_of_found(self.limits@, k, token@);
                        }
                    }
                }
            },
        }
        let ghost pruned = self.limits@;
        self.limits.push((token.clone(), state));
        proof {
            let ghost entry = self.limits@[pruned.len() as int];
            assert(self.limits@ =~= pruned.push(entry));
            assert(entry.0@ == token@ && entry.1 == state);
            assert forall|t: Seq<char>| true implies #[trigger] spec_limit_of(self.limits@, t)
                == (if t == token@ {
                Some(state)
            } else {
                spec_limit_of(pruned, t)
            }) by {
                lemma_limit_of_push(pruned, entry, t);
                if t == token@ {
                    lemma_limit_of_absent(pruned, token@);
                }
            }
            assert forall|a: int, b: int|
                0 <= a < b < self.limits@.len() implies (#[trigger] self.limits@[a]).0@ != (
            #[trigger] self.limits@[b]).0@ by {
                assert(self.limits@[a] == pruned[a]);
                if b < pruned.len() {
                    assert(self.limits@[b] == pruned[b]);
                } else {
                    assert(self.limits@[b] == entry);
                }
            }
            assert forall|k: int|
                0 <= k < self.limits@.len() implies (#[trigger] self.limits@[k]).1.wf() by {
                if k < pruned.len() {
                    assert(self.limits@[k] == pruned[k]);
                } else {
                    assert(self.limits@[k] == entry);
                }
            }
        }
    }

    /// Install the rate limit for `token`: the given window and floor
    /// fraction, `last_update` at `now`, and the reserve initialized to
    /// the percentage floor of the balance seen now.  (Administrator-
    /// only; the caller authorizes and reads the live balance.)
    ///
    /// Rejects a percentage above `POINTS`; fails closed when the floor
    /// product overflows.
    pub fn configure_rate_limit(
        &mut self,
        token: &String,
        period: u64,
        percentage: u32,
        balance: u128,
        now: u64,
    ) -> (r: Result<(), ContractError>)
        requires
            old(self).wf(),
        ensures
            final(self).wf(),
            final(self).icon_asset_manager == old(self).icon_asset_manager,
            r == (if percentage > POINTS {
                Err::<(), ContractError>(
                    ContractError::PercentageShouldBeLessThanOrEqualToPOINTS,
                )
            } else if balance * percentage > u128::MAX {
                Err::<(), ContractError>(ContractError::InvalidAmount)
            } else {
                Ok::<(), ContractError>(())
            }),
            r is Ok ==> spec_limit_of(final(self).limits@, token@) == Some(
                spec_configured(period, percentage, balance, now),
            ),
            r is Ok ==> forall|t: Seq<char>|
                t != token@ ==> #[trigger] spec_limit_of(final(self).limits@, t)
                    == spec_limit_of(old(self).limits@, t),
            r is Err ==> *final(self) == *old(self),
    {
        if percentage as u128 > POINTS {
            return Err(ContractError::PercentageShouldBeLessThanOrEqualToPOINTS);
        }
        let product = match balance.checked_mul(percentage as u128) {
            Some(p) => p,
            None => {
                return Err(ContractError::InvalidAmount);
            },
        };
        let state = RateLimit { period, percentage, last_update: now, current_limit: product
            / POINTS };
        proof {
            lemma_min_reserve_in_range(balance as int, percentage as int);
            assert(state == spec_configured(period, percentage, balance, now));
        }
        self.store_limit(token, state);
        Ok(())
    }

    /// Reset the enforced reserve of `token` to the percentage floor of
    /// the live `balance`.  A manual override, not a replenishment
    /// event: `last_update` is deliberately left untouched.
    pub fn reset_limit(&mut self, token: &String, balance: u128) -> (r: Result<
        bool,
        ContractError,
    >)
        requires
            old(self).wf(),
        ensures
            final(self).wf(),
            final(self).icon_asset_manager == old(self).icon_asset_manager,
            r == (match spec_limit_of(old(self).limits@, token@) {
                None => Err::<bool, ContractError>(ContractError::Uninitialized),
                Some(rl) => if balance * rl.percentage > u128::MAX {
                    Err::<bool, ContractError>(ContractError::InvalidAmount)
                } else {
                    Ok::<bool, ContractError>(true)
                },
            }),
            spec_limit_of(old(self).limits@, token@) matches Some(rl) ==> r is Ok ==> {
                &&& spec_limit_of(final(self).limits@, token@) == Some(
                    RateLimit {
                        current_limit: spec_min_reserve(
                            balance as int,
                            rl.percentage as int,
                        ) as u128,
                        ..rl
                    },
                )
                &&& forall|t: Seq<char>|
                    t != token@ ==> #[trigger] spec_limit_of(final(self).limits@, t)
                        == spec_limit_of(old(self).limits@, t)
            },
            r is Err ==> *final(self) == *old(self),
    {
        let i = match self.find_limit_index(token) {
            Some(i) => i,
            None => {
                return Err(ContractError::Uninitialized);
            },
        };
        let stored = self.limits[i].1;
        let product = match balance.checked_mul(stored.percentage as u128) {
            Some(p) => p,
            None => {
                return Err(ContractError::InvalidAmount);
            },
        };
        let state = RateLimit { current_limit: product / POINTS, ..stored };
        proof {
            lemma_min_reserve_in_range(balance as int, stored.percentage as int);
        }
        self.store_limit(token, state);
        Ok(true)
    }

    /// The reserve that must remain untouched for `token` right now,
    /// from the live `balance` and the current time.
    pub fn get_withdraw_limit(&self, token: &String, balance: u128, now: u64) -> (r: Result<
        u128,
        ContractError,
    >)
        requires
            self.wf(),
            spec_limit_of(self.limits@, token@) matches Some(rl) ==> rl.last_update <= now,
        ensures
            r == (match spec_limit_of(self.limits@, token@) {
                None => Err::<u128, ContractError>(ContractError::Uninitialized),
                Some(rl) => if rl.limit_computable(balance, now) {
                    Ok::<u128, ContractError>(rl.spec_limit(balance, now) as u128)
                } else {
                    Err::<u128, ContractError>(ContractError::InvalidAmount)
                },
            }),
    {
        let i = match self.find_limit_index(token) {
            Some(i) => i,
            None => {
                return Err(ContractError::Uninitialized);
            },
        };
        let stored = self.limits[i].1;
        stored.calculate_limit(balance, now)
    }

    /// Decide a withdrawal of `amount` of `token` against the live
    /// `balance`; on success the stored reserve becomes the freshly
    /// computed limit and its clock moves to `now`.  On any failure the
    /// registry is untouched.
    pub fn verify_withdraw(&mut self, token: &String, amount: u128, balance: u128, now: u64) -> (r:
        Result<bool, ContractError>)
        requires
            old(self).wf(),
            spec_limit_of(old(self).limits@, token@) matches Some(rl) ==> rl.last_update
                <= now,
        ensures
            final(self).wf(),
            final(self).icon_asset_manager == old(self).icon_asset_manager,
            r == (match spec_limit_of(old(self).limits@, token@) {
                None => Err::<bool, ContractError>(ContractError::Uninitialized),
                Some(rl) => if !rl.limit_computable(balance, now) {
                    Err::<bool, ContractError>(ContractError::InvalidAmount)
                } else if balance - amount < rl.spec_limit(balance, now) {
                    Err::<bool, ContractError>(ContractError::ExceedsWithdrawLimit)
                } else {
                    Ok::<bool, ContractError>(true)
                },
            }),
            spec_limit_of(old(self).limits@, token@) matches Some(rl) ==> r is Ok ==> {
                &&& spec_limit_of(final(self).limits@, token@) == Some(
                    spec_after_withdraw(rl, balance, now),
                )
                &&& forall|t: Seq<char>|
                    t != token@ ==> #[trigger] spec_limit_of(final(self).limits@, t)
                        == spec_limit_of(old(self).limits@, t)
            },
            r is Err ==> *final(self) == *old(self),
    {
        let i = match self.find_limit_index(token) {
            Some(i) => i,
            None => {
                return Err(ContractError::Uninitialized);
            },
        };
        let mut stored = self.limits[i].1;
        match stored.verify_withdraw(balance, amount, now) {
            Ok(()) => {},
            Err(e) => {
                return Err(e);
            },
        }
        self.store_limit(token, stored);
        Ok(true)
    }

    /// Release `amount` of `token` from the vault to `to`: reject a zero
    /// amount, consult the rate limiter, and — only if everything passed
    /// and the amount fits the token primitive — commit the new reserve
    /// and hand back the transfer to perform.  Atomic: on any error the
    /// registry is untouched.
    pub fn withdraw(&mut self, token: String, to: String, amount: u128, balance: u128, now: u64) -> (r:
        Result<DispatchAction, ContractError>)
        requires
            old(self).wf(),
            spec_limit_of(old(self).limits@, token@) matches Some(rl) ==> rl.last_update
                <= now,
        ensures
            final(self).wf(),
            final(self).icon_asset_manager == old(self).icon_asset_manager,
            r matches Err(e) ==> spec_withdraw_outcome(
                old(self).limits@,
                token@,
                amount,
                balance,
                now,
            ) == Err::<(), ContractError>(e) && *final(self) == *old(self),
            r is Ok ==> spec_withdraw_outcome(old(self).limits@, token@, amount, balance, now)
                is Ok,
            r is Ok ==> r == Ok::<DispatchAction, ContractError>(
                DispatchAction::Withdraw { token_address: token, to, amount },
            ),
            spec_limit_of(old(self).limits@, token@) matches Some(rl) ==> r is Ok ==> {
                &&& spec_limit_of(final(self).limits@, token@) == Some(
                    spec_after_withdraw(rl, balance, now),
                )
                &&& forall|t: Seq<char>|
                    t != token@ ==> #[trigger] spec_limit_of(final(self).limits@, t)
                        == spec_limit_of(old(self).limits@, t)
            },
    {
        if amount == 0 {
            return Err(ContractError::AmountIsLessThanMinimumAmount);
        }
        let i = match self.find_limit_index(&token) {
            Some(i) => i,
            None => {
                return Err(ContractError::Uninitialized);
            },
        };
        let mut stored = self.limits[i].1;
        match stored.verify_withdraw(balance, amount, now) {
            Ok(()) => {},
            Err(e) => {
                return Err(e);
            },
        }
        if amount > i128::MAX as u128 {
            return Err(ContractError::InvalidAmount);
        }
        self.store_limit(&token, stored);
        Ok(DispatchAction::Withdraw { token_address: token, to, amount })
    }

    /// Accept a deposit of `amount` of `token` from `from` and build the
    /// outbound envelope: the deposit notification, its rollback, the
    /// configured protocol route and the remote asset manager as
    /// destination.  The host transfers the funds into the vault and
    /// sends the envelope.  Rejects a zero amount.
    pub fn deposit(
        &self,
        xm: &XcallManager,
        from: String,
        token: String,
        amount: u128,
        to: Option<String>,
        data: Option<Vec<u8>>,
    ) -> (r: Result<DepositEnvelope, ContractError>)
        ensures
            r is Ok <==> amount > 0,
            r matches Err(e) ==> e == ContractError::AmountIsLessThanMinimumAmount,
            r matches Ok(env) ==> {
                &&& env.message.token_address@ == token@
                &&& env.message.from@ == from@
                &&& env.message.to@ == (match to {
                    Some(t) => t@,
                    None => Seq::<char>::empty(),
                })
                &&& env.message.amount == amount
                &&& env.message.data@ == (match data {
                    Some(d) => d@,
                    None => Seq::new(32, |i: int| 0u8),
                })
                &&& env.rollback.token_address@ == token@
                &&& env.rollback.to@ == from@
                &&& env.rollback.amount == amount
                &&& views_of(env.sources@) == views_of(xm.sources@)
                &&& views_of(env.destinations@) == views_of(xm.destinations@)
                &&& env.destination@ == self.icon_asset_manager@
            },
    {
        if amount == 0 {
            return Err(ContractError::AmountIsLessThanMinimumAmount);
        }
        let deposit_to = match to {
            Some(t) => t,
            None => String::new(),
        };
        let deposit_data = match data {
            Some(d) => d,
            None => zero_payload(),
        };
        let message = Deposit {
            token_address: token.clone(),
            from: from.clone(),
            to: deposit_to,
            amount,
            data: deposit_data,
        };
        let rollback = DepositRevert { token_address: token, to: from, amount };
        let (sources, destinations) = xm.get_protocols();
        Ok(
            DepositEnvelope {
                message,
                rollback,
                sources,
                destinations,
                destination: self.icon_asset_manager.clone(),
            },
        )
    }
}

/// The state a successful withdrawal check leaves behind: the freshly
/// computed limit, with the clock moved to `now`.
pub open spec fn spec_after_withdraw(rl: RateLimit, balance: u128, now: u64) -> RateLimit {
    RateLimit { current_limit: rl.spec_limit(balance, now) as u128, last_update: now, ..rl }
}

/// The outcome of a withdrawal request, step by step: a zero amount is
/// rejected, an unconfigured token is rejected, an overflowing limit
/// computation fails closed, a balance that would drop below the limit
/// is rejected, and an amount beyond the token primitive's range fails
/// closed.
pub open spec fn spec_withdraw_outcome(
    entries: Seq<(String, RateLimit)>,
    token: Seq<char>,
    amount: u128,
    balance: u128,
    now: u64,
) -> Result<(), ContractError> {
    if amount == 0 {
        Err(ContractError::AmountIsLessThanMinimumAmount)
    } else {
        match spec_limit_of(entries, token) {
            None => Err(ContractError::Uninitialized),
            Some(rl) => if !rl.limit_computable(balance, now) {
                Err(ContractError::InvalidAmount)
            } else if balance - amount < rl.spec_limit(balance, now) {
                Err(ContractError::ExceedsWithdrawLimit)
            } else if amount > i128::MAX {
                Err(ContractError::InvalidAmount)
            } else {
                Ok(())
            },
        }
    }
}

/// 32 zero bytes: the payload a deposit carries when the caller
/// supplies none.
fn zero_payload() -> (r: Vec<u8>)
    ensures
        r@ == Seq::new(32, |i: int| 0u8),
{
    let mut out: Vec<u8> = Vec::new();
    let mut i: usize = 0;
    while i < 32
        invariant
            i <= 32,
            out@ =~= Seq::new(i as nat, |k: int| 0u8),
        decreases 32 - i,
    {
        out.push(0);
        proof {
            assert(out@ =~= Seq::new((i + 1) as nat, |k: int| 0u8));
        }
        i += 1;
    }
    proof {
        assert(out@ =~= Seq::new(32, |k: int| 0u8));
    }
    out
}

/// Whether `protocols` matches the configured sources directly.
pub open spec fn spec_protocols_match(xm: XcallManager, protocols: Seq<String>) -> bool {
    protocol_multiset(protocols) == protocol_multiset(xm.sources@)
}

/// The protocol gate of the dispatcher: a direct match admits any
/// instruction; an attestation against the pre-removal set admits only a
/// protocol reconfiguration, and only while a removal is pending.  Any
/// other combination fails with `ProtocolMismatch`.
pub open spec fn spec_gate_outcome(
    xm: XcallManager,
    message: CallMessage,
    protocols: Seq<String>,
) -> Result<(), ContractError> {
    if spec_protocols_match(xm, protocols) || (message is ConfigureProtocols
        && xm.proposed_removal is Some && xm.modified_sources().to_multiset()
        == protocol_multiset(protocols)) {
        Ok(())
    } else {
        Err(ContractError::ProtocolMismatch)
    }
}

/// The full outcome of one inbound instruction: the protocol gate, the
/// arm's identity check, and — for fund-moving arms — the withdrawal
/// chain.
pub open spec fn spec_dispatch_outcome(
    am: AssetManager,
    xm: XcallManager,
    from: Seq<char>,
    message: CallMessage,
    protocols: Seq<String>,
    balance: u128,
    now: u64,
    xcall_network_address: Seq<char>,
) -> Result<(), ContractError> {
    match spec_gate_outcome(xm, message, protocols) {
        Err(e) => Err(e),
        Ok(_) => match message {
            CallMessage::WithdrawTo { token_address, to, amount } => {
                if from != am.icon_asset_manager@ {
                    Err(ContractError::OnlyICONAssetManager)
                } else if !spec_valid_address(to@) || !spec_valid_address(token_address@) {
                    Err(ContractError::InvalidAddress)
                } else {
                    spec_withdraw_outcome(am.limits@, token_address@, amount, balance, now)
                }
            },
            CallMessage::DepositRevert { token_address, to, amount } => {
                if from != xcall_network_address {
                    Err(ContractError::OnlyCallService)
                } else {
                    spec_withdraw_outcome(am.limits@, token_address@, amount, balance, now)
                }
            },
            CallMessage::ConfigureProtocols { sources, destinations } => {
                if from != xm.icon_governance@ {
                    Err(ContractError::OnlyICONGovernance)
                } else {
                    Ok(())
                }
            },
            CallMessage::Execute { contract_address, data } => Ok(()),
            CallMessage::Unknown => Err(ContractError::UnknownMessageType),
        },
    }
}

/// Run one decoded inbound instruction end to end.
///
/// The host layer has already authenticated that the call comes from the
/// local message router; it passes the sender's identity (`from`), the
/// decoded `message`, the protocols that attested it, the relevant
/// token's live `balance`, the ledger time `now` and this bridge's own
/// canonical network address.  On success the returned action tells the
/// host what to perform; on any error neither component changes.
pub fn handle_call_message(
    am: &mut AssetManager,
    xm: &mut XcallManager,
    from: &String,
    message: CallMessage,
    protocols: &Vec<String>,
    balance: u128,
    now: u64,
    xcall_network_address: &String,
) -> (r: Result<DispatchAction, ContractError>)
    requires
        old(am).wf(),
        match message {
            CallMessage::WithdrawTo { token_address, .. } => spec_limit_of(
                old(am).limits@,
                token_address@,
            ) matches Some(rl) ==> rl.last_update <= now,
            CallMessage::DepositRevert { token_address, .. } => spec_limit_of(
                old(am).limits@,
                token_address@,
            ) matches Some(rl) ==> rl.last_update <= now,
            _ => true,
        },
    ensures
        final(am).wf(),
        final(am).icon_asset_manager == old(am).icon_asset_manager,
        final(xm).icon_governance == old(xm).icon_governance,
        final(xm).proposed_removal == old(xm).proposed_removal,
        r matches Err(e) ==> spec_dispatch_outcome(
            *old(am),
            *old(xm),
            from@,
            message,
            protocols@,
            balance,
            now,
            xcall_network_address@,
        ) == Err::<(), ContractError>(e),
        r is Err ==> *final(am) == *old(am) && *final(xm) == *old(xm),
        r is Ok ==> spec_dispatch_outcome(
            *old(am),
            *old(xm),
            from@,
            message,
            protocols@,
            balance,
            now,
            xcall_network_address@,
        ) is Ok,
        message matches CallMessage::WithdrawTo { token_address, to, amount } ==> r is Ok ==> {
            &&& r == Ok::<DispatchAction, ContractError>(
                DispatchAction::Withdraw { token_address, to, amount },
            )
            &&& *final(xm) == *old(xm)
            &&& spec_limit_of(old(am).limits@, token_address@) matches Some(rl)
                ==> spec_limit_of(final(am).limits@, token_address@) == Some(
                spec_after_withdraw(rl, balance, now),
            )
            &&& forall|t: Seq<char>|
                t != token_address@ ==> #[trigger] spec_limit_of(final(am).limits@, t)
                    == spec_limit_of(old(am).limits@, t)
        },
        message matches CallMessage::DepositRevert { token_address, to, amount } ==> r is Ok
            ==> {
            &&& r == Ok::<DispatchAction, ContractError>(
                DispatchAction::Withdraw { token_address, to, amount },
            )
            &&& *final(xm) == *old(xm)
            &&& spec_limit_of(old(am).limits@, token_address@) matches Some(rl)
                ==> spec_limit_of(final(am).limits@, token_address@) == Some(
                spec_after_withdraw(rl, balance, now),
            )
            &&& forall|t: Seq<char>|
                t != token_address@ ==> #[trigger] spec_limit_of(final(am).limits@, t)
                    == spec_limit_of(old(am).limits@, t)
        },
        message matches CallMessage::ConfigureProtocols { sources, destinations } ==> r is Ok
            ==> {
            &&& r == Ok::<DispatchAction, ContractError>(DispatchAction::Reconfigured)
            &&& *final(am) == *old(am)
            &&& final(xm).sources == sources
            &&& final(xm).destinations == destinations
        },
        message matches CallMessage::Execute { contract_address, data } ==> r is Ok ==> {
            &&& r == Ok::<DispatchAction, ContractError>(
                DispatchAction::Forward { contract_address, data },
            )
            &&& *final(am) == *old(am)
            &&& *final(xm) == *old(xm)
        },
{
    let direct = xm.verify_protocols(protocols);
    if !direct {
        match &message {
            CallMessage::ConfigureProtocols { .. } => {
                match xm.verify_protocol_recovery(protocols) {
                    Ok(()) => {},
                    Err(_) => {
                        return Err(ContractError::ProtocolMismatch);
                    },
                }
            },
            _ => {
                return Err(ContractError::ProtocolMismatch);
            },
        }
    }
    match message {
        CallMessage::WithdrawTo { token_address, to, amount } => {
            if !from.eq(&am.icon_asset_manager) {
                return Err(ContractError::OnlyICONAssetManager);
            }
            if !is_valid_string_address(&to) || !is_valid_string_address(&token_address) {
                return Err(ContractError::InvalidAddress);
            }
            am.withdraw(token_address, to, amount, balance, now)
        },
        CallMessage::DepositRevert { token_address, to, amount } => {
            if !from.eq(xcall_network_address) {
                return Err(ContractError::OnlyCallService);
            }
            am.withdraw(token_address, to, amount, balance, now)
        },
        CallMessage::ConfigureProtocols { sources, destinations } => {
            if !from.eq(&xm.icon_governance) {
                return Err(ContractError::OnlyICONGovernance);
            }
            xm.configure(sources, destinations);
            Ok(DispatchAction::Reconfigured)
        },
        CallMessage::Execute { contract_address, data } => {
            Ok(DispatchAction::Forward { contract_address, data })
        },
        CallMessage::Unknown => Err(ContractError::UnknownMessageType),
    }
}

} // verus!
