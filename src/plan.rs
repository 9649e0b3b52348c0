use vstd::prelude::*;

use crate::allocation::{
    allocation_plan,
    calculate_optimal_allocation,
    default_risk_limits,
    performance_total,
    CapitalAllocation,
    RiskLimits,
    StrategyPerformanceData,
};
use crate::errors::RebalancerErrorCode;
use crate::portfolio::Portfolio;
use crate::pubkey::Pubkey;
use crate::threshold::{calculate_dynamic_threshold, dynamic_threshold, MAX_BASE_THRESHOLD};

verus! {

/// Capital left in every underperformer when it is drained.
pub const RESERVE_FLOOR: u64 = 10_000_000;

/// Extraction must exceed this to be worth a rebalance (0.1 of the currency unit).
pub const MIN_EXTRACTION: u64 = 100_000_000;

/// Percentile from which a strategy counts as a top performer.
pub const TOP_QUARTILE_PERCENTILE: u8 = 75;

/// Most top performers that receive capital in one plan.
pub const MAX_TOP_PERFORMERS: usize = 5;

/// Flat fee estimate reported with a plan (2%).
pub const ESTIMATED_FEE_BPS: u64 = 200;

/// Expected uplift of the top performers' mean score, in percent.
pub const EXPECTED_UPLIFT_PERCENT: u64 = 15;

/// One rebalancing decision: what to extract, and where it goes.
#[derive(Clone, Debug)]
pub struct RebalancingPlan {
    pub extraction_targets: Vec<Pubkey>,
    pub total_to_extract: u64,
    pub redistribution_plan: Vec<CapitalAllocation>,
    /// Advisory 2% estimate, not the fees the allocations carry.
    pub estimated_fees: u64,
    /// Advisory estimate of the performance-score gain.
    pub expected_improvement: u64,
}

/// Sum of the volatility scores of the first `k` strategies.
pub open spec fn candidate_volatility_total(s: Seq<StrategyPerformanceData>, k: int) -> int
    decreases k,
{
    if k <= 0 {
        0
    } else {
        candidate_volatility_total(s, k - 1) + s[k - 1].volatility_score
    }
}

/// Mean volatility of a non-empty strategy set, rounded down.
pub open spec fn mean_volatility(s: Seq<StrategyPerformanceData>) -> int {
    candidate_volatility_total(s, s.len() as int) / s.len() as int
}

/// The strategies among the first `k` whose percentile is below `threshold`, in order.
pub open spec fn ranked_below(s: Seq<StrategyPerformanceData>, k: int, threshold: int) -> Seq<
    StrategyPerformanceData,
>
    decreases k,
{
    if k <= 0 {
        Seq::empty()
    } else if s[k - 1].percentile_rank < threshold {
        ranked_below(s, k - 1, threshold).push(s[k - 1])
    } else {
        ranked_below(s, k - 1, threshold)
    }
}

/// The first five strategies, in order, among the first `k` whose percentile is at
/// least 75.
pub open spec fn top_quartile(s: Seq<StrategyPerformanceData>, k: int) -> Seq<
    StrategyPerformanceData,
>
    decreases k,
{
    if k <= 0 {
        Seq::empty()
    } else if s[k - 1].percentile_rank >= TOP_QUARTILE_PERCENTILE && top_quartile(s, k - 1).len()
        < MAX_TOP_PERFORMERS {
        top_quartile(s, k - 1).push(s[k - 1])
    } else {
        top_quartile(s, k - 1)
    }
}

/// What can be drained from the first `k` strategies, each keeping its reserve floor.
pub open spec fn extractable(s: Seq<StrategyPerformanceData>, k: int) -> int
    decreases k,
{
    if k <= 0 {
        0
    } else if s[k - 1].current_balance > RESERVE_FLOOR {
        extractable(s, k - 1) + s[k - 1].current_balance - RESERVE_FLOOR
    } else {
        extractable(s, k - 1)
    }
}

/// 15% of the mean performance score of `top` (mean rounded down first); 0 if empty.
pub open spec fn expected_improvement(top: Seq<StrategyPerformanceData>) -> int {
    if top.len() == 0 {
        0
    } else {
        performance_total(top, top.len() as int) / top.len() as int * EXPECTED_UPLIFT_PERCENT
            / 100
    }
}

proof fn lemma_performance_total_bound(s: Seq<StrategyPerformanceData>, k: int)
    requires
        0 <= k <= s.len(),
    ensures
        0 <= performance_total(s, k) <= k * u64::MAX,
    decreases k,
{
    if k > 0 {
        lemma_performance_total_bound(s, k - 1);
    }
}

/// 15% of the top performers' mean performance score; 0 when there are none.
pub fn calculate_expected_improvement(top_performers: &[StrategyPerformanceData]) -> (r: u64)
    ensures
        r == expected_improvement(top_performers@),
{
    let n = top_performers.len();
    if n == 0 {
        return 0;
    }
    let mut total: u128 = 0;
    let mut i: usize = 0;
    while i < n
        invariant
            n == top_performers@.len(),
            i <= n,
            total == performance_total(top_performers@, i as int),
        decreases n - i,
    {
        proof {
            lemma_performance_total_bound(top_performers@, i as int);
        }
        let score = top_performers[i].performance_score;
        assert(total + score <= 0x1_0000_0000_0000_0000u128 * 0xffff_ffff_ffff_ffffu128) by (nonlinear_arith)
            requires
                total <= i * 0xffff_ffff_ffff_ffffu128,
                score <= 0xffff_ffff_ffff_ffffu64,
                i < n,
                n <= 0xffff_ffff_ffff_ffffu64,
        ;
        total = total + score as u128;
        i = i + 1;
    }
    let mean: u128 = total / n as u128;
    proof {
        lemma_performance_total_bound(top_performers@, n as int);
        crate::threshold::lemma_mean_bounded(total as int, n as int, u64::MAX as int);
    }
    let uplift: u128 = EXPECTED_UPLIFT_PERCENT as u128;
    assert(uplift == 15);
    ((mean * uplift) / 100) as u64
}

proof fn lemma_extractable_bound(s: Seq<StrategyPerformanceData>, k: int)
    requires
        0 <= k <= s.len(),
    ensures
        0 <= extractable(s, k) <= k * u64::MAX,
    decreases k,
{
    if k > 0 {
        lemma_extractable_bound(s, k - 1);
    }
}

/// Builds the full rebalancing decision for `strategies` under `portfolio`'s policy:
/// the dynamic threshold from the mean volatility picks the underperformers to drain
/// down to their reserve floor, and the allocator spreads that capital, under the
/// default risk limits, over the first five top-quartile strategies.
///
/// Underperformers here are chosen by percentile against the portfolio's dynamic
/// threshold. This is a different policy from the count-based flagging of
/// `calculate_percentile_rankings`, which uses each strategy's own threshold and
/// serves the ranking cycle; the two are deliberately kept apart.
pub fn execute_complete_rebalancing(
    portfolio: &Portfolio,
    strategies: &[StrategyPerformanceData],
) -> (r: Result<RebalancingPlan, RebalancerErrorCode>)
    ensures
        ({
            let s = strategies@;
            let n = s.len() as int;
            let base = portfolio.base_threshold;
            let under = ranked_below(s, n, dynamic_threshold(base as int, mean_volatility(s)));
            let top = top_quartile(s, n);
            let x = extractable(under, under.len() as int);
            let planned = n > 0 && base <= MAX_BASE_THRESHOLD && under.len() > 0 && top.len() > 0
                && MIN_EXTRACTION < x <= u64::MAX;
            &&& n == 0 ==> r == Err::<RebalancingPlan, _>(RebalancerErrorCode::InsufficientStrategies)
            &&& n > 0 && base > MAX_BASE_THRESHOLD ==> r == Err::<RebalancingPlan, _>(
                RebalancerErrorCode::InvalidRebalanceThreshold,
            )
            &&& n > 0 && base <= MAX_BASE_THRESHOLD && (under.len() == 0 || top.len() == 0) ==> r
                == Err::<RebalancingPlan, _>(RebalancerErrorCode::InsufficientStrategies)
            &&& n > 0 && base <= MAX_BASE_THRESHOLD && under.len() > 0 && top.len() > 0 && x
                > u64::MAX ==> r == Err::<RebalancingPlan, _>(RebalancerErrorCode::BalanceOverflow)
            &&& n > 0 && base <= MAX_BASE_THRESHOLD && under.len() > 0 && top.len() > 0 && x
                <= MIN_EXTRACTION ==> r == Err::<RebalancingPlan, _>(
                RebalancerErrorCode::InsufficientBalance,
            )
            &&& planned && performance_total(top, top.len() as int) == 0 ==> r == Err::<
                RebalancingPlan,
                _,
            >(RebalancerErrorCode::InvalidPerformanceScore)
            &&& planned && performance_total(top, top.len() as int) > 0 ==> {
                &&& r is Ok
                &&& r->Ok_0.extraction_targets@.len() == under.len()
                &&& forall|i: int|
                    0 <= i < under.len() ==> #[trigger] r->Ok_0.extraction_targets@[i]
                        == under[i].strategy_id
                &&& r->Ok_0.total_to_extract == x
                &&& r->Ok_0.redistribution_plan@ == allocation_plan(x, top, default_risk_limits())
                &&& r->Ok_0.estimated_fees == x * ESTIMATED_FEE_BPS / 10000
                &&& r->Ok_0.expected_improvement == expected_improvement(top)
            }
        }),
{
    let ghost s = strategies@;
    let n = strategies.len();
    if n == 0 {
        return Err(RebalancerErrorCode::InsufficientStrategies);
    }
    let mut volatility_sum: u128 = 0;
    let mut i: usize = 0;
    while i < n
        invariant
            s == strategies@,
            n == s.len(),
            i <= n,
            volatility_sum == candidate_volatility_total(s, i as int),
            volatility_sum <= i * 0xffff_ffffu128,
        decreases n - i,
    {
        let v = strategies[i].volatility_score;
        assert(volatility_sum + v <= (i + 1) * 0xffff_ffffu128) by (nonlinear_arith)
            requires
                volatility_sum <= i * 0xffff_ffffu128,
                v <= 0xffff_ffffu32,
        ;
        assert((i + 1) * 0xffff_ffffu128 <= 0x1_0000_0000_0000_0000u128 * 0xffff_ffffu128)
            by (nonlinear_arith)
            requires
                i < n,
                n <= 0xffff_ffff_ffff_ffffu64,
        ;
        volatility_sum = volatility_sum + v as u128;
        i = i + 1;
    }
    proof {
        crate::threshold::lemma_mean_bounded(volatility_sum as int, n as int, 0xffff_ffff);
    }
    let average_volatility: u32 = (volatility_sum / n as u128) as u32;
    let threshold = calculate_dynamic_threshold(portfolio.base_threshold, average_volatility)?;
    let ghost t = threshold as int;
    let mut underperformers: Vec<StrategyPerformanceData> = Vec::new();
    let mut targets: Vec<Pubkey> = Vec::new();
    let mut top_performers: Vec<StrategyPerformanceData> = Vec::new();
    let mut i: usize = 0;
    while i < n
        invariant
            s == strategies@,
            n == s.len(),
            i <= n,
            t == threshold as int,
            underperformers@ == ranked_below(s, i as int, t),
            targets@.len() == underperformers@.len(),
            forall|j: int|
                0 <= j < targets@.len() ==> #[trigger] targets@[j] == underperformers@[j].strategy_id,
            top_performers@ == top_quartile(s, i as int),
        decreases n - i,
    {
        let candidate = strategies[i];
        if candidate.percentile_rank < threshold {
            underperformers.push(candidate);
            targets.push(candidate.strategy_id);
        }
        if candidate.percentile_rank >= TOP_QUARTILE_PERCENTILE && top_performers.len()
            < MAX_TOP_PERFORMERS {
            top_performers.push(candidate);
        }
        i = i + 1;
    }
    if underperformers.len() == 0 || top_performers.len() == 0 {
        return Err(RebalancerErrorCode::InsufficientStrategies);
    }
    let ghost under = underperformers@;
    let m = underperformers.len();
    let mut extractable_sum: u128 = 0;
    let mut i: usize = 0;
    while i < m
        invariant
            under == underperformers@,
            m == under.len(),
            i <= m,
            extractable_sum == extractable(under, i as int),
        decreases m - i,
    {
        proof {
            lemma_extractable_bound(under, i as int);
        }
        let balance = underperformers[i].current_balance;
        assert(extractable_sum + balance <= 0x1_0000_0000_0000_0000u128 * 0xffff_ffff_ffff_ffffu128)
            by (nonlinear_arith)
            requires
                extractable_sum <= i * 0xffff_ffff_ffff_ffffu128,
                balance <= 0xffff_ffff_ffff_ffffu64,
                i < m,
                m <= 0xffff_ffff_ffff_ffffu64,
        ;
        if balance > RESERVE_FLOOR {
            extractable_sum = extractable_sum + (balance - RESERVE_FLOOR) as u128;
        }
        i = i + 1;
    }
    if extractable_sum > u64::MAX as u128 {
        return Err(RebalancerErrorCode::BalanceOverflow);
    }
    let total_extractable: u64 = extractable_sum as u64;
    if total_extractable <= MIN_EXTRACTION {
        return Err(RebalancerErrorCode::InsufficientBalance);
    }
    let risk_limits = RiskLimits::default();
    assert(!crate::allocation::fees_overflow(total_extractable as int, risk_limits)) by {
        assert(total_extractable * 150 / 10000 <= total_extractable) by (nonlinear_arith)
            requires
                total_extractable >= 0,
        ;
        assert(total_extractable * 50 / 10000 <= total_extractable) by (nonlinear_arith)
            requires
                total_extractable >= 0,
        ;
    }
    let allocations = calculate_optimal_allocation(
        total_extractable,
        top_performers.as_slice(),
        &risk_limits,
    )?;
    let estimated_fees: u64 = ((total_extractable as u128 * ESTIMATED_FEE_BPS as u128) / 10000) as u64;
    let expected = calculate_expected_improvement(top_performers.as_slice());
    Ok(
        RebalancingPlan {
            extraction_targets: targets,
            total_to_extract: total_extractable,
            redistribution_plan: allocations,
            estimated_fees,
            expected_improvement: expected,
        },
    )
}

} // verus!
