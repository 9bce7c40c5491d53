//! Decaying-reserve withdrawal guard, one state per asset.
//!
//! The limiter tracks the amount of an asset's balance that must stay
//! locked in the vault (`current_limit`).  The lock shrinks linearly with
//! elapsed time — over one `period` the whole gap between the balance and
//! the percentage floor becomes withdrawable — but never falls below
//! `balance * percentage / POINTS`.  Time is measured in seconds
//! throughout: `period` and the timestamps use the same unit, and elapsed
//! time enters the computation undivided.

use vstd::arithmetic::div_mod::{
    lemma_div_by_multiple, lemma_div_is_ordered, lemma_div_of0, lemma_div_pos_is_pos,
};
use vstd::arithmetic::mul::{
    lemma_mul_by_zero_is_zero, lemma_mul_inequality, lemma_mul_nonnegative,
};
use vstd::prelude::*;

use crate::errors::ContractError;

verus! {

/// Basis points of one percent: the denominator of `percentage`.
pub const POINTS: u128 = 10_000;

/// Rate limit state for one asset.
///
/// `period == 0` means rate limiting is disabled for the asset.
/// `percentage` is the fraction of the live balance, in basis points,
/// that must always remain reserved.  `current_limit` is the reserve
/// currently enforced; asset balances reach 128 bits, so it does too.
#[derive(Clone, Copy, Debug, PartialEq, Eq, Structural)]
pub struct RateLimit {
    /// Seconds over which the reserve fully replenishes; `0` disables.
    pub period: u64,
    /// Basis points (of `POINTS`) of the balance kept as the floor.
    pub percentage: u32,
    /// Timestamp of the last successful withdrawal check or configuration.
    pub last_update: u64,
    /// The reserve amount currently enforced.
    pub current_limit: u128,
}

/// The percentage floor: `balance * percentage / POINTS`, truncating.
pub open spec fn spec_min_reserve(balance: int, percentage: int) -> int {
    balance * percentage / (POINTS as int)
}

impl RateLimit {
    /// The one invariant every stored state satisfies: the floor fraction
    /// is a valid number of basis points.
    pub open spec fn wf(self) -> bool {
        self.percentage <= POINTS
    }

    /// The reserve that must remain untouched at time `now`, as
    /// mathematics: the currently enforced reserve, decayed by the
    /// replenishment earned since `last_update`, but never below the
    /// percentage floor; `0` when limiting is disabled.
    pub open spec fn spec_limit(self, balance: u128, now: u64) -> int {
        if self.period == 0 {
            0
        } else {
            let min_reserve = spec_min_reserve(balance as int, self.percentage as int);
            let allowed = (balance - min_reserve) * (now - self.last_update) / (
            self.period as int);
            let decayed = if self.current_limit > allowed {
                self.current_limit - allowed
            } else {
                self.current_limit as int
            };
            if decayed > min_reserve {
                decayed
            } else {
                min_reserve
            }
        }
    }

    /// Whether the two intermediate products of the limit computation fit
    /// in 128 bits.  When they do not, the operation fails closed.
    pub open spec fn limit_computable(self, balance: u128, now: u64) -> bool {
        self.period == 0 || (balance * self.percentage <= u128::MAX && (balance
            - spec_min_reserve(balance as int, self.percentage as int)) * (now
            - self.last_update) <= u128::MAX)
    }

    /// The reserve that must remain untouched right now, given the
    /// asset's live `balance` and the current time `now`.
    ///
    /// Pure: the state is not changed.  A product that would overflow is
    /// rejected with `InvalidAmount`.
    pub fn calculate_limit(&self, balance: u128, now: u64) -> (r: Result<
        u128,
        ContractError,
    >)
        requires
            self.wf(),
            self.last_update <= now,
        ensures
            r is Ok <==> self.limit_computable(balance, now),
            r matches Ok(v) ==> v == self.spec_limit(balance, now),
            r matches Err(e) ==> e == ContractError::InvalidAmount,
    {
        if self.period == 0 {
            return Ok(0);
        }
        let product = match balance.checked_mul(self.percentage as u128) {
            Some(p) => p,
            None => {
                return Err(ContractError::InvalidAmount);
            },
        };
        let min_reserve = product / POINTS;
        proof {
            lemma_min_reserve_in_range(balance as int, self.percentage as int);
        }
        let max_withdraw = balance - min_reserve;
        let elapsed = (now - self.last_update) as u128;
        let replenished = match max_withdraw.checked_mul(elapsed) {
            Some(p) => p,
            None => {
                return Err(ContractError::InvalidAmount);
            },
        };
        let allowed_withdrawal = replenished / (self.period as u128);
        let mut reserve = self.current_limit;
        if reserve > allowed_withdrawal {
            reserve = reserve - allowed_withdrawal;
        }
        if reserve > min_reserve {
            Ok(reserve)
        } else {
            Ok(min_reserve)
        }
    }

    /// Decide a withdrawal of `amount` against the live `balance` at time
    /// `now`.  On success the reserve becomes the freshly computed limit
    /// and `last_update` moves to `now`; on failure the state is
    /// untouched.
    ///
    /// Fails with `ExceedsWithdrawLimit` exactly when the remaining
    /// balance would drop below the limit, and with `InvalidAmount` when
    /// the limit itself cannot be computed without overflow.
    pub fn verify_withdraw(&mut self, balance: u128, amount: u128, now: u64) -> (r: Result<
        (),
        ContractError,
    >)
        requires
            old(self).wf(),
            old(self).last_update <= now,
        ensures
            r == (if !old(self).limit_computable(balance, now) {
                Err::<(), ContractError>(ContractError::InvalidAmount)
            } else if balance - amount < old(self).spec_limit(balance, now) {
                Err::<(), ContractError>(ContractError::ExceedsWithdrawLimit)
            } else {
                Ok::<(), ContractError>(())
            }),
            r is Ok ==> *final(self) == (RateLimit {
                current_limit: old(self).spec_limit(balance, now) as u128,
                last_update: now,
                ..*old(self)
            }),
            r is Ok ==> final(self).current_limit <= balance,
            r is Err ==> *final(self) == *old(self),
            final(self).wf(),
    {
        let limit = match self.calculate_limit(balance, now) {
            Ok(l) => l,
            Err(e) => {
                return Err(e);
            },
        };
        if amount > balance || balance - amount < limit {
            return Err(ContractError::ExceedsWithdrawLimit);
        }
        self.current_limit = limit;
        self.last_update = now;
        Ok(())
    }
}

/// The state `configure_rate_limit` installs: the given window and
/// fraction, `last_update` at the configuration time, and the reserve
/// initialized to the percentage floor of the balance seen then.
pub open spec fn spec_configured(period: u64, percentage: u32, balance: u128, now: u64) -> RateLimit {
    RateLimit {
        period,
        percentage,
        last_update: now,
        current_limit: spec_min_reserve(balance as int, percentage as int) as u128,
    }
}

/// For every enabled, well-formed state whose enforced reserve does not
/// exceed the live balance, the computed limit lies between the
/// percentage floor and the balance:
/// `balance * percentage / POINTS <= limit <= balance`.
///
/// An enforced reserve above the live balance (possible after the balance
/// shrank through another path) pushes the limit above the balance, so
/// `current_limit <= balance` is required.
pub proof fn lemma_limit_bounds(s: RateLimit, balance: u128, now: u64)
    requires
        s.wf(),
        s.period > 0,
        s.last_update <= now,
        s.current_limit <= balance,
    ensures
        spec_min_reserve(balance as int, s.percentage as int) <= s.spec_limit(balance, now)
            <= balance,
{
    let min_reserve = spec_min_reserve(balance as int, s.percentage as int);
    lemma_min_reserve_in_range(balance as int, s.percentage as int);
    lemma_mul_nonnegative(balance - min_reserve, now - s.last_update);
    lemma_div_pos_is_pos((balance - min_reserve) * (now - s.last_update), s.period as int);
}

/// Two limit computations from the same state, the same balance and the
/// same instant return the same value: with no elapsed time and no
/// intervening write, `calculate_limit` is idempotent.  (Each successful
/// call returns exactly `spec_limit`, so two such calls agree.)
pub proof fn lemma_calculate_limit_idempotent(
    s: RateLimit,
    balance: u128,
    now: u64,
    first: int,
    second: int,
)
    requires
        first == s.spec_limit(balance, now),
        second == s.spec_limit(balance, now),
    ensures
        first == second,
{
}

/// Linear replenishment is monotone: with the state fixed, the limit is
/// non-increasing as elapsed time grows, as long as the replenishment
/// earned by the later instant still falls short of the enforced reserve.
///
/// The proviso is needed: the decay step leaves the reserve at its prior
/// value (rather than at the floor) once the replenishment reaches it, so
/// the limit can climb back to `current_limit` at that crossing when
/// `current_limit` exceeds the floor.
pub proof fn lemma_replenishment_monotonic(s: RateLimit, balance: u128, now1: u64, now2: u64)
    requires
        s.wf(),
        s.period > 0,
        s.last_update <= now1 <= now2,
        (balance - spec_min_reserve(balance as int, s.percentage as int)) * (now2
            - s.last_update) / (s.period as int) < s.current_limit,
    ensures
        s.spec_limit(balance, now2) <= s.spec_limit(balance, now1),
{
    let min_reserve = spec_min_reserve(balance as int, s.percentage as int);
    let max_withdraw = balance - min_reserve;
    let e1 = now1 - s.last_update;
    let e2 = now2 - s.last_update;
    lemma_min_reserve_in_range(balance as int, s.percentage as int);
    lemma_mul_inequality(e1, e2, max_withdraw);
    assert(e1 * max_withdraw == max_withdraw * e1) by (nonlinear_arith);
    assert(e2 * max_withdraw == max_withdraw * e2) by (nonlinear_arith);
    lemma_div_is_ordered(max_withdraw * e1, max_withdraw * e2, s.period as int);
    lemma_mul_nonnegative(max_withdraw, e1);
    lemma_div_pos_is_pos(max_withdraw * e1, s.period as int);
}

/// Once the enforced reserve is at or below the percentage floor, the
/// limit sits exactly at the floor, whatever time has elapsed.
pub proof fn lemma_limit_floored(s: RateLimit, balance: u128, now: u64)
    requires
        s.wf(),
        s.period > 0,
        s.last_update <= now,
        s.current_limit <= spec_min_reserve(balance as int, s.percentage as int),
    ensures
        s.spec_limit(balance, now) == spec_min_reserve(balance as int, s.percentage as int),
{
    let min_reserve = spec_min_reserve(balance as int, s.percentage as int);
    lemma_min_reserve_in_range(balance as int, s.percentage as int);
    lemma_mul_nonnegative(balance - min_reserve, now - s.last_update);
    lemma_div_pos_is_pos((balance - min_reserve) * (now - s.last_update), s.period as int);
}

/// No-limiting mode: a zero `period` makes the limit `0` for any balance
/// and percentage — every withdrawal that keeps the balance non-negative
/// is permitted.
pub proof fn lemma_no_limiting(s: RateLimit, balance: u128, now: u64)
    requires
        s.period == 0,
    ensures
        s.spec_limit(balance, now) == 0,
{
}

/// Round trip of configuration: the state installed by
/// `configure_rate_limit` carries exactly the configured `period` and
/// `percentage`, and its reserve is consistent with `calculate_limit` at
/// zero elapsed time — with limiting enabled the limit equals the stored
/// `current_limit`, and with `period == 0` it is `0`.
pub proof fn lemma_configure_round_trip(period: u64, percentage: u32, balance: u128, now: u64)
    requires
        percentage <= POINTS,
    ensures
        spec_configured(period, percentage, balance, now).period == period,
        spec_configured(period, percentage, balance, now).percentage == percentage,
        spec_configured(period, percentage, balance, now).last_update == now,
        period > 0 ==> spec_configured(period, percentage, balance, now).spec_limit(balance, now)
            == spec_configured(period, percentage, balance, now).current_limit,
        period == 0 ==> spec_configured(period, percentage, balance, now).spec_limit(balance, now)
            == 0,
{
    let s = spec_configured(period, percentage, balance, now);
    let min_reserve = spec_min_reserve(balance as int, percentage as int);
    lemma_min_reserve_in_range(balance as int, percentage as int);
    if period > 0 {
        assert(now - s.last_update == 0);
        lemma_mul_by_zero_is_zero(balance - min_reserve);
        lemma_div_of0(s.period as int);
    }
}

/// `0 <= balance * percentage / POINTS <= balance` whenever the
/// percentage is at most `POINTS`.
pub proof fn lemma_min_reserve_in_range(balance: int, percentage: int)
    requires
        0 <= balance,
        0 <= percentage <= POINTS as int,
    ensures
        0 <= spec_min_reserve(balance, percentage) <= balance,
{
    let points = POINTS as int;
    lemma_mul_nonnegative(balance, percentage);
    lemma_div_pos_is_pos(balance * percentage, points);
    lemma_mul_inequality(percentage, points, balance);
    assert(balance * percentage == percentage * balance) by (nonlinear_arith);
    assert(balance * points == points * balance) by (nonlinear_arith);
    lemma_div_is_ordered(balance * percentage, balance * points, points);
    lemma_div_by_multiple(balance, points);
}

} // verus!
