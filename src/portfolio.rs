use vstd::prelude::*;

use crate::allocation::{amount_total, allocation_fault, allocations_valid, CapitalAllocation, MAX_ALLOCATIONS, validate_allocations};
use crate::errors::RebalancerErrorCode;
use crate::pubkey::{zero_key, Pubkey};

verus! {

/// Smallest base threshold accepted when a portfolio is created, in percent.
pub const MIN_BASE_THRESHOLD: u8 = 1;

/// Largest base threshold accepted when a portfolio is created, in percent.
pub const MAX_INITIAL_BASE_THRESHOLD: u8 = 50;

/// Shortest accepted interval between rebalances, in seconds.
pub const MIN_REBALANCE_INTERVAL: i64 = 1;

/// Longest accepted interval between rebalances, in seconds (one day).
pub const MAX_REBALANCE_INTERVAL: i64 = 86400;

/// Performance fee a new portfolio starts with (2%).
pub const DEFAULT_PERFORMANCE_FEE_BPS: u16 = 200;

/// Fewest strategies a ranking cycle needs.
pub const MIN_STRATEGIES_FOR_RANKING: u32 = 2;

/// The pooled portfolio and its rebalancing policy.
#[derive(Clone, Copy, Debug)]
pub struct Portfolio {
    pub manager: Pubkey,
    /// Capital moved by redistributions over the portfolio's life.
    pub total_capital_moved: u64,
    /// Time of the last rebalance, in seconds.
    pub last_rebalance: i64,
    /// Fewest seconds between two rebalances.
    pub min_rebalance_interval: i64,
    pub portfolio_creation: i64,
    pub total_strategies: u32,
    pub performance_fee_bps: u16,
    /// Base threshold of the dynamic underperformance cutoff, in percent.
    pub base_threshold: u8,
    /// While set, every rebalancing entry point refuses to run.
    pub emergency_pause: bool,
    pub bump: u8,
}

/// `a + b`, clamped to the `i64` range.
pub open spec fn saturating_add_i64(a: int, b: int) -> int {
    if a + b > i64::MAX {
        i64::MAX as int
    } else if a + b < i64::MIN {
        i64::MIN as int
    } else {
        a + b
    }
}

/// Whether a rebalance may run at `now`: not paused, and the interval has elapsed.
pub open spec fn rebalance_allowed(p: Portfolio, now: int) -> bool {
    !p.emergency_pause && now >= saturating_add_i64(
        p.last_rebalance as int,
        p.min_rebalance_interval as int,
    )
}

fn saturating_add(a: i64, b: i64) -> (r: i64)
    ensures
        r == saturating_add_i64(a as int, b as int),
{
    match a.checked_add(b) {
        Some(v) => v,
        None => if b > 0 {
            i64::MAX
        } else {
            i64::MIN
        },
    }
}

impl Portfolio {
    pub fn validate_base_threshold(threshold: u8) -> (r: Result<(), RebalancerErrorCode>)
        ensures
            r is Ok <==> MIN_BASE_THRESHOLD <= threshold <= MAX_INITIAL_BASE_THRESHOLD,
            r is Err ==> r == Err::<(), _>(RebalancerErrorCode::InvalidRebalanceThreshold),
    {
        if threshold >= MIN_BASE_THRESHOLD && threshold <= MAX_INITIAL_BASE_THRESHOLD {
            Ok(())
        } else {
            Err(RebalancerErrorCode::InvalidRebalanceThreshold)
        }
    }

    pub fn can_rebalance(&self, current_time: i64) -> (r: bool)
        ensures
            r == rebalance_allowed(*self, current_time as int),
    {
        !self.emergency_pause && current_time >= saturating_add(
            self.last_rebalance,
            self.min_rebalance_interval,
        )
    }

    pub fn validate_min_interval(interval: i64) -> (r: Result<(), RebalancerErrorCode>)
        ensures
            r is Ok <==> MIN_REBALANCE_INTERVAL <= interval <= MAX_REBALANCE_INTERVAL,
            r is Err ==> r == Err::<(), _>(RebalancerErrorCode::InvalidRebalanceInterval),
    {
        if interval >= MIN_REBALANCE_INTERVAL && interval <= MAX_REBALANCE_INTERVAL {
            Ok(())
        } else {
            Err(RebalancerErrorCode::InvalidRebalanceInterval)
        }
    }
}

/// Creates a portfolio at `current_time` after checking the manager, the base
/// threshold and the rebalance interval, in that order.
pub fn initialize_portfolio(
    manager: Pubkey,
    base_threshold: u8,
    min_rebalance_interval: i64,
    current_time: i64,
    bump: u8,
) -> (r: Result<Portfolio, RebalancerErrorCode>)
    ensures
        manager@ == zero_key() ==> r == Err::<Portfolio, _>(RebalancerErrorCode::InvalidManager),
        manager@ != zero_key() && !(MIN_BASE_THRESHOLD <= base_threshold
            <= MAX_INITIAL_BASE_THRESHOLD) ==> r == Err::<Portfolio, _>(
            RebalancerErrorCode::InvalidRebalanceThreshold,
        ),
        manager@ != zero_key() && MIN_BASE_THRESHOLD <= base_threshold
            <= MAX_INITIAL_BASE_THRESHOLD && !(MIN_REBALANCE_INTERVAL <= min_rebalance_interval
            <= MAX_REBALANCE_INTERVAL) ==> r == Err::<Portfolio, _>(
            RebalancerErrorCode::InvalidRebalanceInterval,
        ),
        r is Ok ==> r == Ok::<_, RebalancerErrorCode>(
            Portfolio {
                manager,
                total_capital_moved: 0,
                last_rebalance: current_time,
                min_rebalance_interval,
                portfolio_creation: current_time,
                total_strategies: 0,
                performance_fee_bps: DEFAULT_PERFORMANCE_FEE_BPS,
                base_threshold,
                emergency_pause: false,
                bump,
            },
        ),
        manager@ != zero_key() && MIN_BASE_THRESHOLD <= base_threshold
            <= MAX_INITIAL_BASE_THRESHOLD && MIN_REBALANCE_INTERVAL <= min_rebalance_interval
            <= MAX_REBALANCE_INTERVAL ==> r is Ok,
{
    if manager.is_default() {
        return Err(RebalancerErrorCode::InvalidManager);
    }
    Portfolio::validate_base_threshold(base_threshold)?;
    Portfolio::validate_min_interval(min_rebalance_interval)?;
    Ok(
        Portfolio {
            manager,
            total_capital_moved: 0,
            last_rebalance: current_time,
            min_rebalance_interval,
            portfolio_creation: current_time,
            total_strategies: 0,
            performance_fee_bps: DEFAULT_PERFORMANCE_FEE_BPS,
            base_threshold,
            emergency_pause: false,
            bump,
        },
    )
}

/// Opens a ranking cycle at `current_time`: refused while paused, before the interval
/// has elapsed, or with fewer than two strategies; otherwise records the time.
pub fn execute_ranking_cycle(portfolio: &mut Portfolio, current_time: i64) -> (r: Result<
    (),
    RebalancerErrorCode,
>)
    ensures
        old(portfolio).emergency_pause ==> r == Err::<(), _>(RebalancerErrorCode::EmergencyPaused),
        !old(portfolio).emergency_pause && !rebalance_allowed(*old(portfolio), current_time as int)
            ==> r == Err::<(), _>(RebalancerErrorCode::InvalidRebalanceInterval),
        rebalance_allowed(*old(portfolio), current_time as int) && old(portfolio).total_strategies
            < MIN_STRATEGIES_FOR_RANKING ==> r == Err::<(), _>(
            RebalancerErrorCode::InsufficientStrategies,
        ),
        rebalance_allowed(*old(portfolio), current_time as int) && old(portfolio).total_strategies
            >= MIN_STRATEGIES_FOR_RANKING ==> r is Ok,
        r is Ok ==> *final(portfolio) == (Portfolio { last_rebalance: current_time, ..*old(portfolio) }),
        r is Err ==> *final(portfolio) == *old(portfolio),
{
    if portfolio.emergency_pause {
        return Err(RebalancerErrorCode::EmergencyPaused);
    }
    if !portfolio.can_rebalance(current_time) {
        return Err(RebalancerErrorCode::InvalidRebalanceInterval);
    }
    if portfolio.total_strategies < MIN_STRATEGIES_FOR_RANKING {
        return Err(RebalancerErrorCode::InsufficientStrategies);
    }
    portfolio.last_rebalance = current_time;
    Ok(())
}

/// Accepts a batch of 1 to 20 allocations for redistribution and adds its validated
/// total to the capital moved.
pub fn redistribute_capital(portfolio: &mut Portfolio, allocations: &[CapitalAllocation]) -> (r: Result<
    (),
    RebalancerErrorCode,
>)
    ensures
        old(portfolio).emergency_pause ==> r == Err::<(), _>(RebalancerErrorCode::EmergencyPaused),
        !old(portfolio).emergency_pause && allocations@.len() == 0 ==> r == Err::<(), _>(
            RebalancerErrorCode::InsufficientStrategies,
        ),
        !old(portfolio).emergency_pause && allocations@.len() > MAX_ALLOCATIONS ==> r == Err::<
            (),
            _,
        >(RebalancerErrorCode::TooManyStrategies),
        !old(portfolio).emergency_pause && 0 < allocations@.len() <= MAX_ALLOCATIONS
            && !allocations_valid(allocations@) ==> r is Err && exists|i: int|
            0 <= i < allocations@.len() && allocation_fault(allocations@, i) == Some(r->Err_0)
                && forall|j: int| 0 <= j < i ==> (#[trigger] allocation_fault(allocations@, j)) is None,
        !old(portfolio).emergency_pause && 0 < allocations@.len() <= MAX_ALLOCATIONS
            && allocations_valid(allocations@) ==> if old(portfolio).total_capital_moved
            + amount_total(allocations@) > u64::MAX {
            r == Err::<(), _>(RebalancerErrorCode::BalanceOverflow)
        } else {
            r is Ok
        },
        r is Ok ==> *final(portfolio) == (Portfolio {
            total_capital_moved: (old(portfolio).total_capital_moved + amount_total(
                allocations@,
            )) as u64,
            ..*old(portfolio)
        }),
        r is Err ==> *final(portfolio) == *old(portfolio),
{
    if portfolio.emergency_pause {
        return Err(RebalancerErrorCode::EmergencyPaused);
    }
    if allocations.len() == 0 {
        return Err(RebalancerErrorCode::InsufficientStrategies);
    }
    if allocations.len() > MAX_ALLOCATIONS {
        return Err(RebalancerErrorCode::TooManyStrategies);
    }
    let total = validate_allocations(allocations)?;
    match portfolio.total_capital_moved.checked_add(total) {
        Some(moved) => {
            portfolio.total_capital_moved = moved;
            Ok(())
        },
        None => Err(RebalancerErrorCode::BalanceOverflow),
    }
}

} // verus!
