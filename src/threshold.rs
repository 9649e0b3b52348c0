use vstd::prelude::*;

use crate::errors::RebalancerErrorCode;
use crate::ranking::StrategyData;

verus! {

/// Lowest dynamic threshold, in percent.
pub const MIN_DYNAMIC_THRESHOLD: u8 = 10;

/// Highest dynamic threshold, in percent.
pub const MAX_DYNAMIC_THRESHOLD: u8 = 40;

/// Highest base threshold the calculation accepts, in percent.
pub const MAX_BASE_THRESHOLD: u8 = 100;

/// Sum of the volatility scores of the first `k` strategies of `s`.
pub open spec fn volatility_total(s: Seq<StrategyData>, k: int) -> int
    decreases k,
{
    if k <= 0 {
        0
    } else {
        volatility_total(s, k - 1) + s[k - 1].volatility_score
    }
}

/// Percentage points added to the base threshold: 20 points at 100% volatility.
pub open spec fn volatility_adjustment(average_volatility: int) -> int {
    average_volatility * 20 / 10000
}

/// `base_threshold` plus the volatility adjustment, clamped to the 10..=40 band.
pub open spec fn dynamic_threshold(base_threshold: int, average_volatility: int) -> int {
    let raw = base_threshold + volatility_adjustment(average_volatility);
    if raw < MIN_DYNAMIC_THRESHOLD {
        MIN_DYNAMIC_THRESHOLD as int
    } else if raw > MAX_DYNAMIC_THRESHOLD {
        MAX_DYNAMIC_THRESHOLD as int
    } else {
        raw
    }
}

/// A sum of `k` values each at most `m` is at most `k * m`, so its mean is at most `m`.
pub proof fn lemma_mean_bounded(total: int, k: int, m: int)
    requires
        k > 0,
        0 <= m,
        0 <= total <= k * m,
    ensures
        total / k <= m,
{
    vstd::arithmetic::div_mod::lemma_div_is_ordered(total, k * m, k);
    vstd::arithmetic::div_mod::lemma_div_by_multiple(m, k);
    assert(k * m == m * k) by (nonlinear_arith);
}

/// Mean volatility score of the strategies, rounded down.
pub fn calculate_average_volatility(strategies: &[StrategyData]) -> (r: Result<u32, RebalancerErrorCode>)
    ensures
        strategies@.len() == 0 <==> r is Err,
        r is Err ==> r == Err::<u32, _>(RebalancerErrorCode::InsufficientStrategies),
        r is Ok ==> r->Ok_0 == volatility_total(strategies@, strategies@.len() as int)
            / strategies@.len() as int,
{
    if strategies.len() == 0 {
        return Err(RebalancerErrorCode::InsufficientStrategies);
    }
    let n = strategies.len();
    let mut total: u128 = 0;
    let mut i: usize = 0;
    while i < n
        invariant
            n == strategies@.len(),
            i <= n,
            total == volatility_total(strategies@, i as int),
            total <= i * 0xffff_ffffu128,
        decreases n - i,
    {
        let v = strategies[i].volatility_score;
        assert(total + v <= (i + 1) * 0xffff_ffffu128) by (nonlinear_arith)
            requires
                total <= i * 0xffff_ffffu128,
                v <= 0xffff_ffffu32,
        ;
        assert((i + 1) * 0xffff_ffffu128 <= 0x1_0000_0000_0000_0000 * 0xffff_ffffu128) by (nonlinear_arith)
            requires
                i < n,
                n <= 0xffff_ffff_ffff_ffffu64,
        ;
        total = total + v as u128;
        i = i + 1;
    }
    proof {
        lemma_mean_bounded(total as int, n as int, 0xffff_ffff);
    }
    Ok((total / n as u128) as u32)
}

/// The underperformance cutoff for the given base threshold and mean volatility.
pub fn calculate_dynamic_threshold(base_threshold: u8, average_volatility: u32) -> (r: Result<
    u8,
    RebalancerErrorCode,
>)
    ensures
        base_threshold > MAX_BASE_THRESHOLD <==> r is Err,
        r is Err ==> r == Err::<u8, _>(RebalancerErrorCode::InvalidRebalanceThreshold),
        r is Ok ==> r->Ok_0 == dynamic_threshold(base_threshold as int, average_volatility as int),
{
    if base_threshold > MAX_BASE_THRESHOLD {
        return Err(RebalancerErrorCode::InvalidRebalanceThreshold);
    }
    let adjustment: u64 = (average_volatility as u64 * 20) / 10_000;
    let raw: u64 = base_threshold as u64 + adjustment;
    if raw < MIN_DYNAMIC_THRESHOLD as u64 {
        Ok(MIN_DYNAMIC_THRESHOLD)
    } else if raw > MAX_DYNAMIC_THRESHOLD as u64 {
        Ok(MAX_DYNAMIC_THRESHOLD)
    } else {
        Ok(raw as u8)
    }
}

} // verus!
