use balanced_bridge::errors::ContractError;
use balanced_bridge::rate_limit::{RateLimit, POINTS};

fn sample_state() -> RateLimit {
    // balance 1000, 10% floor (1000 of 10000 points), window 100 seconds
    RateLimit { period: 100, percentage: 1000, last_update: 0, current_limit: 100 }
}

#[test]
fn points_is_basis_points() {
    assert_eq!(POINTS, 10_000);
}

#[test]
fn limit_at_zero_elapsed_is_current_reserve() {
    let state = sample_state();
    // min_reserve = 1000 * 1000 / 10000 = 100, no time elapsed
    assert_eq!(state.calculate_limit(1000, 0), Ok(100));
}

#[test]
fn limit_is_idempotent_without_writes() {
    let state = sample_state();
    let first = state.calculate_limit(1000, 7);
    let second = state.calculate_limit(1000, 7);
    assert_eq!(first, second);
}

#[test]
fn limit_stays_within_floor_and_balance() {
    // elapsed sweep: the result never leaves [min_reserve, balance]
    let state = RateLimit { period: 100, percentage: 2500, last_update: 0, current_limit: 900 };
    let balance: u128 = 1000;
    let min_reserve = balance * 2500 / POINTS;
    let mut now: u64 = 0;
    while now <= 200 {
        let limit = state.calculate_limit(balance, now).unwrap();
        assert!(limit >= min_reserve);
        assert!(limit <= balance);
        now += 10;
    }
}

#[test]
fn replenishment_is_monotonic_in_decay_region() {
    let state = RateLimit { period: 100, percentage: 1000, last_update: 0, current_limit: 600 };
    // allowed withdrawal stays below current_limit for elapsed < 67
    let mut previous = state.calculate_limit(1000, 0).unwrap();
    let mut now: u64 = 1;
    while now <= 60 {
        let limit = state.calculate_limit(1000, now).unwrap();
        assert!(limit <= previous);
        previous = limit;
        now += 1;
    }
}

#[test]
fn no_limiting_mode_returns_zero() {
    let disabled = RateLimit { period: 0, percentage: 9_999, last_update: 5, current_limit: 77 };
    assert_eq!(disabled.calculate_limit(0, 5), Ok(0));
    assert_eq!(disabled.calculate_limit(123_456, 5), Ok(0));
    assert_eq!(disabled.calculate_limit(u128::MAX, u64::MAX), Ok(0));
}

#[test]
fn withdraw_boundary_at_zero_elapsed() {
    // balance=1000, percentage=1000 (10%), period=100, elapsed=0:
    // min_reserve=100, max_withdrawable=900, allowed=0, reserve=100
    let mut state = sample_state();
    assert_eq!(state.verify_withdraw(1000, 899, 0), Ok(()));
    assert_eq!(state.current_limit, 100);
    assert_eq!(state.last_update, 0);

    let mut state = sample_state();
    assert_eq!(
        state.verify_withdraw(1000, 901, 0),
        Err(ContractError::ExceedsWithdrawLimit)
    );
    // the failed check left the state untouched
    assert_eq!(state, sample_state());
}

#[test]
fn replenishment_scenario_stays_at_floor() {
    // same state at now = t0 + 50: allowed = 900 * 50 / 100 = 450;
    // the reserve was already at the floor, so it stays at 100
    let state = sample_state();
    assert_eq!(state.calculate_limit(1000, 50), Ok(100));
}

#[test]
fn reserve_decays_linearly_above_floor() {
    // current_limit 600, floor 100: after 25 of 100 seconds the reserve
    // drops by 900 * 25 / 100 = 225 to 375
    let state = RateLimit { period: 100, percentage: 1000, last_update: 0, current_limit: 600 };
    assert_eq!(state.calculate_limit(1000, 25), Ok(375));
}

#[test]
fn withdraw_of_whole_balance_needs_zero_reserve() {
    let mut state = RateLimit { period: 100, percentage: 0, last_update: 0, current_limit: 0 };
    assert_eq!(state.verify_withdraw(500, 500, 0), Ok(()));
    let mut state = RateLimit { period: 100, percentage: 0, last_update: 0, current_limit: 0 };
    assert_eq!(
        state.verify_withdraw(500, 501, 0),
        Err(ContractError::ExceedsWithdrawLimit)
    );
}

#[test]
fn overflowing_floor_product_fails_closed() {
    let state = RateLimit {
        period: 100,
        percentage: 10_000,
        last_update: 0,
        current_limit: 0,
    };
    assert_eq!(
        state.calculate_limit(u128::MAX, 0),
        Err(ContractError::InvalidAmount)
    );
    let mut writable = state;
    assert_eq!(
        writable.verify_withdraw(u128::MAX, 1, 0),
        Err(ContractError::InvalidAmount)
    );
    assert_eq!(writable, state);
}

#[test]
fn overflowing_replenishment_product_fails_closed() {
    // percentage 0 keeps the floor product small; the replenishment
    // product (balance - 0) * elapsed overflows instead
    let state = RateLimit { period: 100, percentage: 0, last_update: 0, current_limit: 5 };
    assert_eq!(
        state.calculate_limit(u128::MAX, u64::MAX),
        Err(ContractError::InvalidAmount)
    );
}
