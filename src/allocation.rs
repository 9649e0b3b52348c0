use vstd::prelude::*;

use crate::errors::RebalancerErrorCode;
use crate::pubkey::Pubkey;
use crate::strategy::ProtocolType;

verus! {

/// Basis points in a whole (100%).
pub const BPS_DENOMINATOR: u64 = 10000;

/// Default cap on one strategy's share of the capital (40%).
pub const MAX_SINGLE_STRATEGY_BPS: u64 = 4000;

/// Default floor under one strategy's share of the capital (1%).
pub const MIN_SINGLE_STRATEGY_BPS: u64 = 100;

/// Default platform fee (0.5%).
pub const PLATFORM_FEE_BPS: u64 = 50;

/// Default manager fee (1.5%).
pub const MANAGER_FEE_BPS: u64 = 150;

/// Default risk tolerance (80%).
pub const RISK_TOLERANCE_BPS: u64 = 8000;

/// Risk multiplier of the calmest strategy before tolerance scaling (150%); also the
/// cap on the final multiplier.
pub const MAX_RISK_MULTIPLIER_BPS: u64 = 15000;

/// Risk multiplier of the most volatile strategy before tolerance scaling (50%).
pub const MIN_RISK_MULTIPLIER_BPS: u64 = 5000;

/// Leftover capital above this is swept into the first top-performer allocation.
pub const DUST_THRESHOLD: u64 = 1_000_000;

/// How many leading candidates are tagged as top performers.
pub const TOP_PERFORMER_SLOTS: usize = 3;

/// Largest allocation batch accepted for one redistribution.
pub const MAX_ALLOCATIONS: usize = 20;

/// A candidate for new capital, as the allocator sees it.
#[derive(Clone, Copy, Debug)]
pub struct StrategyPerformanceData {
    pub strategy_id: Pubkey,
    pub performance_score: u64,
    pub current_balance: u64,
    pub volatility_score: u32,
    pub protocol_type: ProtocolType,
    pub percentile_rank: u8,
}

/// Diversification caps, fee rates and risk tolerance for one allocation run.
#[derive(Clone, Copy, Debug)]
pub struct RiskLimits {
    /// Largest share of the capital one strategy may receive.
    pub max_single_strategy_bps: u64,
    /// Smallest share worth allocating to one strategy.
    pub min_single_strategy_bps: u64,
    pub platform_fee_bps: u64,
    pub manager_fee_bps: u64,
    /// Scales every risk multiplier.
    pub risk_tolerance_bps: u64,
    /// Where the platform fee goes.
    pub platform_treasury: Pubkey,
    /// Where the manager fee goes.
    pub manager_treasury: Pubkey,
}

#[derive(Clone, Copy, Debug, PartialEq, Eq, Structural)]
pub enum AllocationType {
    PlatformFee,
    ManagerIncentive,
    TopPerformer,
    RiskDiversification,
}

/// One planned movement of capital to a destination.
#[derive(Clone, Copy, Debug)]
pub struct CapitalAllocation {
    pub strategy_id: Pubkey,
    pub amount: u64,
    pub allocation_type: AllocationType,
}

/// The documented default policy: 40% cap, 1% floor, 0.5% platform and 1.5% manager
/// fees, 80% risk tolerance, and both fees sent to the all-zero key.
pub open spec fn default_risk_limits() -> RiskLimits {
    RiskLimits {
        max_single_strategy_bps: MAX_SINGLE_STRATEGY_BPS,
        min_single_strategy_bps: MIN_SINGLE_STRATEGY_BPS,
        platform_fee_bps: PLATFORM_FEE_BPS,
        manager_fee_bps: MANAGER_FEE_BPS,
        risk_tolerance_bps: RISK_TOLERANCE_BPS,
        platform_treasury: crate::pubkey::zero_pubkey(),
        manager_treasury: crate::pubkey::zero_pubkey(),
    }
}

impl Default for RiskLimits {
    fn default() -> (r: RiskLimits)
        ensures
            r == default_risk_limits(),
    {
        RiskLimits {
            max_single_strategy_bps: MAX_SINGLE_STRATEGY_BPS,
            min_single_strategy_bps: MIN_SINGLE_STRATEGY_BPS,
            platform_fee_bps: PLATFORM_FEE_BPS,
            manager_fee_bps: MANAGER_FEE_BPS,
            risk_tolerance_bps: RISK_TOLERANCE_BPS,
            platform_treasury: Pubkey::default(),
            manager_treasury: Pubkey::default(),
        }
    }
}

/// `bps` basis points of `amount`, rounded down.
pub open spec fn bps_of(amount: int, bps: int) -> int {
    amount * bps / BPS_DENOMINATOR as int
}

/// Allocation multiplier, in basis points, for a strategy of the given volatility:
/// volatility (capped at 100%) maps linearly from 150% down to 50%, is scaled by the
/// risk tolerance, and is capped at 150%.
pub open spec fn risk_multiplier(volatility: int, risk_tolerance_bps: int) -> int {
    let v = if volatility > 10000 {
        10000
    } else {
        volatility
    };
    let multiplier = MIN_RISK_MULTIPLIER_BPS + (10000 - v) * (MAX_RISK_MULTIPLIER_BPS
        - MIN_RISK_MULTIPLIER_BPS) / 10000;
    let scaled = multiplier * risk_tolerance_bps / 10000;
    if scaled > MAX_RISK_MULTIPLIER_BPS {
        MAX_RISK_MULTIPLIER_BPS as int
    } else {
        scaled
    }
}

/// The risk multiplier, in basis points, for a strategy's volatility under `risk_limits`.
pub fn calculate_risk_adjustment(volatility_score: u32, risk_limits: &RiskLimits) -> (r: u32)
    ensures
        r == risk_multiplier(volatility_score as int, risk_limits.risk_tolerance_bps as int),
{
    let volatility: u64 = if volatility_score > 10000 {
        10000
    } else {
        volatility_score as u64
    };
    let inverse: u64 = 10000 - volatility;
    let multiplier: u64 = MIN_RISK_MULTIPLIER_BPS + (inverse * (MAX_RISK_MULTIPLIER_BPS
        - MIN_RISK_MULTIPLIER_BPS)) / 10000;
    assert(multiplier <= 15000) by (nonlinear_arith)
        requires
            inverse <= 10000,
            multiplier == 5000 + (inverse * 10000) / 10000,
    ;
    let tolerance: u64 = risk_limits.risk_tolerance_bps;
    assert(multiplier as u128 * tolerance as u128 <= 15000 * 0xffff_ffff_ffff_ffffu128) by (nonlinear_arith)
        requires
            multiplier <= 15000,
            tolerance <= 0xffff_ffff_ffff_ffffu64,
    ;
    let scaled: u128 = (multiplier as u128 * tolerance as u128) / 10000;
    if scaled > MAX_RISK_MULTIPLIER_BPS as u128 {
        MAX_RISK_MULTIPLIER_BPS as u32
    } else {
        scaled as u32
    }
}

/// The multiplier falls, never rises, as volatility grows; it stays between the
/// tolerance-scaled 50% and 150% (and never above 150%); and under the default 80%
/// tolerance a strategy at least two basis points calmer gets a strictly larger one.
pub proof fn lemma_risk_multiplier_monotone(v1: int, v2: int, tolerance: int)
    requires
        0 <= v1 <= v2,
        0 <= tolerance,
    ensures
        risk_multiplier(v1, tolerance) >= risk_multiplier(v2, tolerance),
        risk_multiplier(v2, tolerance) <= MAX_RISK_MULTIPLIER_BPS,
        risk_multiplier(v2, tolerance) >= bps_of(MIN_RISK_MULTIPLIER_BPS as int, tolerance)
            || risk_multiplier(v2, tolerance) == MAX_RISK_MULTIPLIER_BPS,
        risk_multiplier(v2, tolerance) <= bps_of(MAX_RISK_MULTIPLIER_BPS as int, tolerance),
        tolerance == RISK_TOLERANCE_BPS && v1 + 2 <= v2 && v1 + 2 <= 10000 ==> risk_multiplier(
            v1,
            tolerance,
        ) > risk_multiplier(v2, tolerance),
{
    let c1 = if v1 > 10000 {
        10000
    } else {
        v1
    };
    let c2 = if v2 > 10000 {
        10000
    } else {
        v2
    };
    let m1 = 5000 + (10000 - c1) * 10000 / 10000;
    let m2 = 5000 + (10000 - c2) * 10000 / 10000;
    assert(m1 == 15000 - c1) by (nonlinear_arith)
        requires
            m1 == 5000 + (10000 - c1) * 10000 / 10000,
    ;
    assert(m2 == 15000 - c2) by (nonlinear_arith)
        requires
            m2 == 5000 + (10000 - c2) * 10000 / 10000,
    ;
    assert(m1 * tolerance >= m2 * tolerance) by (nonlinear_arith)
        requires
            m1 >= m2,
            tolerance >= 0,
    ;
    vstd::arithmetic::div_mod::lemma_div_is_ordered(m2 * tolerance, m1 * tolerance, 10000);
    assert(5000 * tolerance <= m2 * tolerance <= 15000 * tolerance) by (nonlinear_arith)
        requires
            5000 <= m2 <= 15000,
            tolerance >= 0,
    ;
    vstd::arithmetic::div_mod::lemma_div_is_ordered(5000 * tolerance, m2 * tolerance, 10000);
    vstd::arithmetic::div_mod::lemma_div_is_ordered(m2 * tolerance, 15000 * tolerance, 10000);
    if tolerance == RISK_TOLERANCE_BPS && v1 + 2 <= v2 && v1 + 2 <= 10000 {
        assert(m2 * 8000 + 10000 <= m1 * 8000) by (nonlinear_arith)
            requires
                m1 == 15000 - c1,
                m2 == 15000 - c2,
                c1 + 2 <= c2,
        ;
        vstd::arithmetic::div_mod::lemma_div_is_ordered(m2 * 8000 + 10000, m1 * 8000, 10000);
        vstd::arithmetic::div_mod::lemma_hoist_over_denominator(m2 * 8000, 1, 10000);
    }
}

/// Sum of the amounts of `s`.
pub open spec fn amount_total(s: Seq<CapitalAllocation>) -> int
    decreases s.len(),
{
    if s.len() == 0 {
        0
    } else {
        amount_total(s.drop_last()) + s.last().amount
    }
}

/// Largest single allocation amount accepted, exclusive.
pub open spec fn amount_ceiling() -> int {
    u64::MAX as int / 1000
}

/// The fault of the allocation at position `i` of `s`, if any: its destination
/// already appeared earlier, its amount is zero, its amount is too large, or the
/// running total overflows there.
pub open spec fn allocation_fault(s: Seq<CapitalAllocation>, i: int) -> Option<RebalancerErrorCode> {
    if exists|j: int| 0 <= j < i && #[trigger] s[j].strategy_id@ == s[i].strategy_id@ {
        Some(RebalancerErrorCode::DuplicateStrategy)
    } else if s[i].amount == 0 {
        Some(RebalancerErrorCode::InsufficientBalance)
    } else if s[i].amount >= amount_ceiling() || amount_total(s.take(i + 1)) > u64::MAX {
        Some(RebalancerErrorCode::BalanceOverflow)
    } else {
        None
    }
}

/// Every allocation of `s` passes validation.
pub open spec fn allocations_valid(s: Seq<CapitalAllocation>) -> bool {
    forall|i: int| 0 <= i < s.len() ==> (#[trigger] allocation_fault(s, i)) is None
}

proof fn lemma_amount_total_push(s: Seq<CapitalAllocation>, e: CapitalAllocation)
    ensures
        amount_total(s.push(e)) == amount_total(s) + e.amount,
{
    assert(s.push(e).drop_last() =~= s);
}

proof fn lemma_amount_total_take(s: Seq<CapitalAllocation>, i: int)
    requires
        0 <= i < s.len(),
    ensures
        amount_total(s.take(i + 1)) == amount_total(s.take(i)) + s[i].amount,
{
    assert(s.take(i + 1).drop_last() =~= s.take(i));
}

/// Checks an allocation batch and returns its total: every destination appears
/// once, and every amount is positive, below a thousandth of the `u64` range, and
/// keeps the total within `u64`. The first faulty allocation decides the error.
pub fn validate_allocations(allocations: &[CapitalAllocation]) -> (r: Result<u64, RebalancerErrorCode>)
    ensures
        r is Ok <==> allocations_valid(allocations@),
        r is Ok ==> r->Ok_0 == amount_total(allocations@),
        r is Err ==> exists|i: int|
            0 <= i < allocations@.len() && allocation_fault(allocations@, i) == Some(r->Err_0)
                && forall|j: int| 0 <= j < i ==> (#[trigger] allocation_fault(allocations@, j)) is None,
{
    let ghost s = allocations@;
    let n = allocations.len();
    let mut total: u64 = 0;
    let mut i: usize = 0;
    while i < n
        invariant
            s == allocations@,
            n == s.len(),
            i <= n,
            total == amount_total(s.take(i as int)),
            forall|j: int| 0 <= j < i ==> (#[trigger] allocation_fault(s, j)) is None,
        decreases n - i,
    {
        let current = allocations[i];
        let mut j: usize = 0;
        while j < i
            invariant
                s == allocations@,
                n == s.len(),
                i < n,
                j <= i,
                current == s[i as int],
                forall|k: int| 0 <= k < i ==> (#[trigger] allocation_fault(s, k)) is None,
                forall|k: int| 0 <= k < j ==> #[trigger] s[k].strategy_id@ != s[i as int].strategy_id@,
            decreases i - j,
        {
            if allocations[j].strategy_id == current.strategy_id {
                proof {
                    assert(s[j as int].strategy_id@ == s[i as int].strategy_id@);
                    assert(allocation_fault(s, i as int) == Some(RebalancerErrorCode::DuplicateStrategy));
                }
                return Err(RebalancerErrorCode::DuplicateStrategy);
            }
            j = j + 1;
        }
        proof {
            lemma_amount_total_take(s, i as int);
            assert(!exists|k: int| 0 <= k < i && #[trigger] s[k].strategy_id@ == s[i as int].strategy_id@);
        }
        if current.amount == 0 {
            assert(allocation_fault(s, i as int) == Some(RebalancerErrorCode::InsufficientBalance));
            return Err(RebalancerErrorCode::InsufficientBalance);
        }
        if current.amount >= u64::MAX / 1000 {
            assert(allocation_fault(s, i as int) == Some(RebalancerErrorCode::BalanceOverflow));
            return Err(RebalancerErrorCode::BalanceOverflow);
        }
        match total.checked_add(current.amount) {
            Some(t) => {
                total = t;
            },
            None => {
                assert(allocation_fault(s, i as int) == Some(RebalancerErrorCode::BalanceOverflow));
                return Err(RebalancerErrorCode::BalanceOverflow);
            },
        }
        assert(allocation_fault(s, i as int) is None);
        i = i + 1;
    }
    assert(s.take(n as int) =~= s);
    Ok(total)
}

/// Sum of the performance scores of the first `k` candidates.
pub open spec fn performance_total(c: Seq<StrategyPerformanceData>, k: int) -> int
    decreases k,
{
    if k <= 0 {
        0
    } else {
        performance_total(c, k - 1) + c[k - 1].performance_score
    }
}

pub open spec fn platform_fee(available: int, limits: RiskLimits) -> int {
    bps_of(available, limits.platform_fee_bps as int)
}

pub open spec fn manager_fee(available: int, limits: RiskLimits) -> int {
    bps_of(available, limits.manager_fee_bps as int)
}

/// A fee rate above 100% can make a fee too large for `u64`.
pub open spec fn fees_overflow(available: int, limits: RiskLimits) -> bool {
    platform_fee(available, limits) > u64::MAX || manager_fee(available, limits) > u64::MAX
}

/// The fee allocations, in order: platform fee, then manager fee, each only if nonzero.
pub open spec fn fee_entries(available: int, limits: RiskLimits) -> Seq<CapitalAllocation> {
    let pf = platform_fee(available, limits);
    let mf = manager_fee(available, limits);
    let platform = if pf > 0 {
        seq![
            CapitalAllocation {
                strategy_id: limits.platform_treasury,
                amount: pf as u64,
                allocation_type: AllocationType::PlatformFee,
            },
        ]
    } else {
        Seq::empty()
    };
    let manager = if mf > 0 {
        seq![
            CapitalAllocation {
                strategy_id: limits.manager_treasury,
                amount: mf as u64,
                allocation_type: AllocationType::ManagerIncentive,
            },
        ]
    } else {
        Seq::empty()
    };
    platform + manager
}

/// `a - b`, or zero where that would be negative.
pub open spec fn saturating_diff(a: int, b: int) -> int {
    if a > b {
        a - b
    } else {
        0
    }
}

/// Capital left for the candidates once both fees are taken.
pub open spec fn capital_after_fees(available: int, limits: RiskLimits) -> int {
    saturating_diff(
        saturating_diff(available, platform_fee(available, limits)),
        manager_fee(available, limits),
    )
}

/// The first three candidates are top performers; the rest diversify.
pub open spec fn slot_type(index: int) -> AllocationType {
    if index < TOP_PERFORMER_SLOTS {
        AllocationType::TopPerformer
    } else {
        AllocationType::RiskDiversification
    }
}

/// The performance-weighted share of `remaining` for candidate `c`, capped at the
/// single-strategy maximum; before risk adjustment.
pub open spec fn capped_share(
    c: StrategyPerformanceData,
    remaining: int,
    available: int,
    total: int,
    limits: RiskLimits,
) -> int {
    let share = remaining * c.performance_score / total;
    let max_single = bps_of(available, limits.max_single_strategy_bps as int);
    if share > max_single {
        max_single
    } else {
        share
    }
}

/// What candidate `c` receives out of `remaining`: nothing if its capped share is below
/// the single-strategy minimum or its protocol's minimum balance; else that share
/// scaled by its risk multiplier, but never more than `remaining`.
pub open spec fn candidate_amount(
    c: StrategyPerformanceData,
    remaining: int,
    available: int,
    total: int,
    limits: RiskLimits,
) -> int {
    let capped = capped_share(c, remaining, available, total, limits);
    if capped < bps_of(available, limits.min_single_strategy_bps as int) || capped
        < crate::strategy::protocol_min_balance(c.protocol_type) {
        0
    } else {
        let adjusted = capped * risk_multiplier(
            c.volatility_score as int,
            limits.risk_tolerance_bps as int,
        ) / BPS_DENOMINATOR as int;
        if adjusted > remaining {
            remaining
        } else {
            adjusted
        }
    }
}

/// The allocations made and the capital left after the fees and the first `k`
/// candidates, taken in order; once nothing is left, later candidates get nothing.
pub open spec fn allocation_pass(
    cands: Seq<StrategyPerformanceData>,
    k: int,
    available: int,
    limits: RiskLimits,
) -> (Seq<CapitalAllocation>, int)
    decreases k,
{
    if k <= 0 {
        (fee_entries(available, limits), capital_after_fees(available, limits))
    } else {
        let prev = allocation_pass(cands, k - 1, available, limits);
        let c = cands[k - 1];
        let amount = if prev.1 > 0 {
            candidate_amount(c, prev.1, available, performance_total(cands, cands.len() as int), limits)
        } else {
            0
        };
        if amount > 0 {
            (
                prev.0.push(
                    CapitalAllocation {
                        strategy_id: c.strategy_id,
                        amount: amount as u64,
                        allocation_type: slot_type(k - 1),
                    },
                ),
                prev.1 - amount,
            )
        } else {
            prev
        }
    }
}

/// Position of the first top-performer allocation at or after `i`, or -1.
pub open spec fn first_top_from(s: Seq<CapitalAllocation>, i: int) -> int
    decreases s.len() - i,
{
    if i < 0 || i >= s.len() {
        -1
    } else if s[i].allocation_type == AllocationType::TopPerformer {
        i
    } else {
        first_top_from(s, i + 1)
    }
}

/// The allocator's result: the pass over all candidates, with leftover capital above
/// the dust threshold added to the first top-performer allocation, if there is one.
pub open spec fn allocation_plan(
    available: int,
    cands: Seq<StrategyPerformanceData>,
    limits: RiskLimits,
) -> Seq<CapitalAllocation> {
    let pass = allocation_pass(cands, cands.len() as int, available, limits);
    let s = pass.0;
    let r = pass.1;
    let j = first_top_from(s, 0);
    if r > DUST_THRESHOLD && j >= 0 {
        s.update(
            j,
            CapitalAllocation {
                strategy_id: s[j].strategy_id,
                amount: (s[j].amount + r) as u64,
                allocation_type: s[j].allocation_type,
            },
        )
    } else {
        s
    }
}

proof fn lemma_first_top(s: Seq<CapitalAllocation>, i: int)
    requires
        0 <= i,
    ensures
        first_top_from(s, i) == -1 || (i <= first_top_from(s, i) < s.len() && s[first_top_from(
            s,
            i,
        )].allocation_type == AllocationType::TopPerformer),
        forall|m: int|
            i <= m < s.len() && (first_top_from(s, i) == -1 || m < first_top_from(s, i))
                ==> #[trigger] s[m].allocation_type != AllocationType::TopPerformer,
    decreases s.len() - i,
{
    if i < s.len() && s[i].allocation_type != AllocationType::TopPerformer {
        lemma_first_top(s, i + 1);
    }
}

proof fn lemma_score_within_total(c: Seq<StrategyPerformanceData>, k: int, i: int)
    requires
        0 <= i < k <= c.len(),
    ensures
        c[i].performance_score <= performance_total(c, k),
        0 <= performance_total(c, k),
    decreases k,
{
    if i < k - 1 {
        lemma_score_within_total(c, k - 1, i);
    } else {
        lemma_total_nonneg(c, k - 1);
    }
}

proof fn lemma_total_nonneg(c: Seq<StrategyPerformanceData>, k: int)
    ensures
        0 <= performance_total(c, k),
    decreases k,
{
    if k > 0 {
        lemma_total_nonneg(c, k - 1);
    }
}

/// What every pass keeps: the fee allocations stay in front, every later allocation is
/// a positive candidate allocation that, with what is left, fits in the capital after
/// fees, and what is left never grows.
proof fn lemma_pass_shape(
    cands: Seq<StrategyPerformanceData>,
    k: int,
    available: int,
    limits: RiskLimits,
)
    requires
        0 <= k <= cands.len(),
        0 <= available <= u64::MAX,
    ensures
        ({
            let fees = fee_entries(available, limits);
            let r0 = capital_after_fees(available, limits);
            let s = allocation_pass(cands, k, available, limits).0;
            let r = allocation_pass(cands, k, available, limits).1;
            &&& fees.len() <= s.len()
            &&& forall|j: int| 0 <= j < fees.len() ==> #[trigger] s[j] == fees[j]
            &&& 0 <= r <= r0 <= available
            &&& forall|j: int|
                fees.len() <= j < s.len() ==> {
                    &&& (#[trigger] s[j]).amount > 0
                    &&& s[j].amount + r <= r0
                    &&& s[j].allocation_type == AllocationType::TopPerformer
                        || s[j].allocation_type == AllocationType::RiskDiversification
                }
        }),
    decreases k,
{
    let fees = fee_entries(available, limits);
    let r0 = capital_after_fees(available, limits);
    lemma_fees_nonneg(available, limits);
    if k > 0 {
        lemma_pass_shape(cands, k - 1, available, limits);
        let prev = allocation_pass(cands, k - 1, available, limits);
        let cur = allocation_pass(cands, k, available, limits);
        if cur.0.len() > prev.0.len() {
            assert forall|j: int| 0 <= j < prev.0.len() implies #[trigger] cur.0[j] == prev.0[j] by {}
            assert(cur.0[prev.0.len() as int].amount + cur.1 == prev.1);
        }
    }
}

proof fn lemma_fees_nonneg(available: int, limits: RiskLimits)
    requires
        0 <= available,
    ensures
        0 <= platform_fee(available, limits),
        0 <= manager_fee(available, limits),
        0 <= capital_after_fees(available, limits) <= available,
{
    assert(0 <= available * limits.platform_fee_bps) by (nonlinear_arith)
        requires
            0 <= available,
            0 <= limits.platform_fee_bps,
    ;
    assert(0 <= available * limits.manager_fee_bps) by (nonlinear_arith)
        requires
            0 <= available,
            0 <= limits.manager_fee_bps,
    ;
}

proof fn lemma_product_fits(a: u64, b: u64)
    ensures
        a as int * b as int <= u128::MAX,
{
    assert(a as int * b as int <= 0xffff_ffff_ffff_ffff * 0xffff_ffff_ffff_ffff) by (nonlinear_arith)
        requires
            a <= 0xffff_ffff_ffff_ffffu64,
            b <= 0xffff_ffff_ffff_ffffu64,
    ;
}

/// Splits `available_capital` into fee allocations and performance-weighted,
/// capped and risk-adjusted allocations to the candidates, in candidate order.
pub fn calculate_optimal_allocation(
    available_capital: u64,
    top_strategies: &[StrategyPerformanceData],
    risk_limits: &RiskLimits,
) -> (r: Result<Vec<CapitalAllocation>, RebalancerErrorCode>)
    ensures
        available_capital == 0 ==> r == Err::<Vec<CapitalAllocation>, _>(
            RebalancerErrorCode::InsufficientBalance,
        ),
        available_capital > 0 && top_strategies@.len() == 0 ==> r == Err::<
            Vec<CapitalAllocation>,
            _,
        >(RebalancerErrorCode::InsufficientStrategies),
        available_capital > 0 && top_strategies@.len() > 0 && performance_total(
            top_strategies@,
            top_strategies@.len() as int,
        ) == 0 ==> r == Err::<Vec<CapitalAllocation>, _>(
            RebalancerErrorCode::InvalidPerformanceScore,
        ),
        available_capital > 0 && top_strategies@.len() > 0 && performance_total(
            top_strategies@,
            top_strategies@.len() as int,
        ) > 0 && fees_overflow(available_capital as int, *risk_limits) ==> r == Err::<
            Vec<CapitalAllocation>,
            _,
        >(RebalancerErrorCode::BalanceOverflow),
        available_capital > 0 && top_strategies@.len() > 0 && performance_total(
            top_strategies@,
            top_strategies@.len() as int,
        ) > 0 && !fees_overflow(available_capital as int, *risk_limits) ==> r is Ok
            && r->Ok_0@ == allocation_plan(available_capital as int, top_strategies@, *risk_limits),
{
    if available_capital == 0 {
        return Err(RebalancerErrorCode::InsufficientBalance);
    }
    if top_strategies.len() == 0 {
        return Err(RebalancerErrorCode::InsufficientStrategies);
    }
    let ghost cands = top_strategies@;
    let ghost limits = *risk_limits;
    let ghost avail = available_capital as int;
    let n = top_strategies.len();
    let mut total: u128 = 0;
    let mut i: usize = 0;
    while i < n
        invariant
            cands == top_strategies@,
            n == cands.len(),
            i <= n,
            total == performance_total(cands, i as int),
            total <= i * 0xffff_ffff_ffff_ffffu128,
        decreases n - i,
    {
        let score = top_strategies[i].performance_score;
        assert(total + score <= (i + 1) * 0xffff_ffff_ffff_ffffu128) by (nonlinear_arith)
            requires
                total <= i * 0xffff_ffff_ffff_ffffu128,
                score <= 0xffff_ffff_ffff_ffffu64,
        ;
        assert((i + 1) * 0xffff_ffff_ffff_ffffu128 <= 0x1_0000_0000_0000_0000u128
            * 0xffff_ffff_ffff_ffffu128) by (nonlinear_arith)
            requires
                i < n,
                n <= 0xffff_ffff_ffff_ffffu64,
        ;
        total = total + score as u128;
        i = i + 1;
    }
    if total == 0 {
        return Err(RebalancerErrorCode::InvalidPerformanceScore);
    }
    let available: u128 = available_capital as u128;
    proof {
        lemma_product_fits(available_capital, risk_limits.platform_fee_bps);
        lemma_product_fits(available_capital, risk_limits.manager_fee_bps);
        lemma_product_fits(available_capital, risk_limits.max_single_strategy_bps);
        lemma_product_fits(available_capital, risk_limits.min_single_strategy_bps);
    }
    let platform_fee: u128 = available * risk_limits.platform_fee_bps as u128 / 10000;
    let manager_fee: u128 = available * risk_limits.manager_fee_bps as u128 / 10000;
    if platform_fee > u64::MAX as u128 || manager_fee > u64::MAX as u128 {
        return Err(RebalancerErrorCode::BalanceOverflow);
    }
    let mut allocations: Vec<CapitalAllocation> = Vec::new();
    let mut remaining: u64 = available_capital;
    if platform_fee > 0 {
        allocations.push(
            CapitalAllocation {
                strategy_id: risk_limits.platform_treasury,
                amount: platform_fee as u64,
                allocation_type: AllocationType::PlatformFee,
            },
        );
        remaining = remaining.saturating_sub(platform_fee as u64);
    }
    if manager_fee > 0 {
        allocations.push(
            CapitalAllocation {
                strategy_id: risk_limits.manager_treasury,
                amount: manager_fee as u64,
                allocation_type: AllocationType::ManagerIncentive,
            },
        );
        remaining = remaining.saturating_sub(manager_fee as u64);
    }
    assert(allocations@ =~= fee_entries(avail, limits));
    let max_single: u128 = available * risk_limits.max_single_strategy_bps as u128 / 10000;
    let min_single: u128 = available * risk_limits.min_single_strategy_bps as u128 / 10000;
    let mut i: usize = 0;
    while i < n
        invariant
            cands == top_strategies@,
            limits == *risk_limits,
            avail == available_capital,
            available == available_capital,
            n == cands.len(),
            i <= n,
            total == performance_total(cands, n as int),
            total > 0,
            max_single == bps_of(avail, limits.max_single_strategy_bps as int),
            min_single == bps_of(avail, limits.min_single_strategy_bps as int),
            allocations@ == allocation_pass(cands, i as int, avail, limits).0,
            remaining == allocation_pass(cands, i as int, avail, limits).1,
        decreases n - i,
    {
        let c = top_strategies[i];
        if remaining > 0 {
            proof {
                lemma_score_within_total(cands, n as int, i as int);
            }
            proof {
                lemma_product_fits(remaining, c.performance_score);
            }
            let share: u128 = (remaining as u128 * c.performance_score as u128) / total;
            proof {
                let num = remaining as int * c.performance_score as int;
                let t = total as int;
                assert(num <= remaining as int * t) by (nonlinear_arith)
                    requires
                        num == remaining as int * c.performance_score as int,
                        c.performance_score <= t,
                        remaining >= 0,
                ;
                vstd::arithmetic::div_mod::lemma_div_is_ordered(num, remaining as int * t, t);
                vstd::arithmetic::div_mod::lemma_div_by_multiple(remaining as int, t);
                assert(share <= remaining);
            }
            let capped: u128 = if share > max_single {
                max_single
            } else {
                share
            };
            if capped >= min_single && capped >= c.protocol_type.min_balance() as u128 {
                let multiplier = calculate_risk_adjustment(c.volatility_score, risk_limits);
                assert(capped * multiplier as u128 <= 0xffff_ffff_ffff_ffffu128 * 15000)
                    by (nonlinear_arith)
                    requires
                        capped <= 0xffff_ffff_ffff_ffffu128,
                        multiplier <= 15000,
                ;
                let adjusted: u128 = capped * multiplier as u128 / 10000;
                let amount: u64 = if adjusted > remaining as u128 {
                    remaining
                } else {
                    adjusted as u64
                };
                if amount > 0 {
                    let allocation_type = if i < TOP_PERFORMER_SLOTS {
                        AllocationType::TopPerformer
                    } else {
                        AllocationType::RiskDiversification
                    };
                    allocations.push(
                        CapitalAllocation { strategy_id: c.strategy_id, amount, allocation_type },
                    );
                    remaining = remaining - amount;
                }
            }
        }
        i = i + 1;
    }
    assert(cands.len() as int == n as int);
    if remaining > DUST_THRESHOLD {
        let ghost s = allocations@;
        proof {
            lemma_pass_shape(cands, n as int, avail, limits);
        }
        let mut j: usize = 0;
        while j < allocations.len() && allocations[j].allocation_type != AllocationType::TopPerformer
            invariant
                s == allocations@,
                j <= s.len(),
                first_top_from(s, 0) == first_top_from(s, j as int),
            decreases s.len() - j,
        {
            j = j + 1;
        }
        if j < allocations.len() {
            proof {
                lemma_first_top(s, 0);
                let fees = fee_entries(avail, limits);
                if j < fees.len() {
                    assert(s[j as int] == fees[j as int]);
                }
            }
            // No overflow: a candidate allocation and what is left together never
            // exceed the capital after fees.
            let mut entry = allocations[j];
            entry.amount = entry.amount + remaining;
            allocations.set(j, entry);
        }
    }
    Ok(allocations)
}

proof fn lemma_amount_total_nonneg(s: Seq<CapitalAllocation>)
    ensures
        0 <= amount_total(s),
    decreases s.len(),
{
    if s.len() > 0 {
        lemma_amount_total_nonneg(s.drop_last());
    }
}

/// A prefix totals no more than the whole, and one amount no more than its prefix.
proof fn lemma_amount_total_prefix(s: Seq<CapitalAllocation>, i: int)
    requires
        0 <= i < s.len(),
    ensures
        s[i].amount <= amount_total(s.take(i + 1)) <= amount_total(s),
    decreases s.len(),
{
    lemma_amount_total_take(s, i);
    lemma_amount_total_nonneg(s.take(i));
    if i + 1 == s.len() {
        assert(s.take(i + 1) =~= s);
    } else {
        let d = s.drop_last();
        lemma_amount_total_prefix(d, i);
        assert(d.take(i + 1) =~= s.take(i + 1));
    }
}

proof fn lemma_amount_total_update(s: Seq<CapitalAllocation>, j: int, e: CapitalAllocation)
    requires
        0 <= j < s.len(),
    ensures
        amount_total(s.update(j, e)) == amount_total(s) - s[j].amount + e.amount,
    decreases s.len(),
{
    let u = s.update(j, e);
    if j == s.len() - 1 {
        assert(u.drop_last() =~= s.drop_last());
    } else {
        lemma_amount_total_update(s.drop_last(), j, e);
        assert(u.drop_last() =~= s.drop_last().update(j, e));
    }
}

/// The fee allocations are positive, go to the two treasuries, and with the capital
/// left after them make up the whole when the two fee rates add up to at most 100%.
proof fn lemma_fee_entries(available: int, limits: RiskLimits)
    requires
        0 <= available <= u64::MAX,
    ensures
        ({
            let fees = fee_entries(available, limits);
            &&& fees.len() <= 2
            &&& forall|j: int|
                0 <= j < fees.len() ==> {
                    &&& !fees_overflow(available, limits) ==> (#[trigger] fees[j]).amount > 0
                    &&& fees[j].allocation_type == AllocationType::PlatformFee
                        || fees[j].allocation_type == AllocationType::ManagerIncentive
                    &&& fees[j].allocation_type == AllocationType::PlatformFee ==> fees[j].strategy_id
                        == limits.platform_treasury
                    &&& fees[j].allocation_type == AllocationType::ManagerIncentive
                        ==> fees[j].strategy_id == limits.manager_treasury
                }
            &&& fees.len() == 2 ==> fees[0].allocation_type == AllocationType::PlatformFee
                && fees[1].allocation_type == AllocationType::ManagerIncentive
            &&& limits.platform_fee_bps + limits.manager_fee_bps <= BPS_DENOMINATOR ==> {
                &&& platform_fee(available, limits) + manager_fee(available, limits) <= available
                &&& !fees_overflow(available, limits)
                &&& amount_total(fees) + capital_after_fees(available, limits) == available
            }
        }),
{
    let pf = platform_fee(available, limits);
    let mf = manager_fee(available, limits);
    lemma_fees_nonneg(available, limits);
    let fees = fee_entries(available, limits);
    if limits.platform_fee_bps + limits.manager_fee_bps <= BPS_DENOMINATOR {
        let a = limits.platform_fee_bps as int;
        let b = limits.manager_fee_bps as int;
        assert(pf + mf <= available) by (nonlinear_arith)
            requires
                pf == available * a / 10000,
                mf == available * b / 10000,
                a + b <= 10000,
                0 <= a,
                0 <= b,
                0 <= available,
        {
            vstd::arithmetic::div_mod::lemma_fundamental_div_mod(available * a, 10000);
            vstd::arithmetic::div_mod::lemma_fundamental_div_mod(available * b, 10000);
            vstd::arithmetic::div_mod::lemma_mod_pos_bound(available * a, 10000);
            vstd::arithmetic::div_mod::lemma_mod_pos_bound(available * b, 10000);
        }
        let pe = CapitalAllocation {
            strategy_id: limits.platform_treasury,
            amount: pf as u64,
            allocation_type: AllocationType::PlatformFee,
        };
        let me = CapitalAllocation {
            strategy_id: limits.manager_treasury,
            amount: mf as u64,
            allocation_type: AllocationType::ManagerIncentive,
        };
        let e = Seq::<CapitalAllocation>::empty();
        assert(amount_total(e) == 0);
        lemma_amount_total_push(e, pe);
        lemma_amount_total_push(e, me);
        lemma_amount_total_push(e.push(pe), me);
        if pf > 0 && mf > 0 {
            assert(fees =~= e.push(pe).push(me));
        } else if pf > 0 {
            assert(fees =~= e.push(pe));
        } else if mf > 0 {
            assert(fees =~= e.push(me));
        } else {
            assert(fees =~= e);
        }
    }
}

/// Every candidate allocation of a pass goes to one of the candidates seen so far;
/// when the candidates' identifiers are distinct, so are those of the allocations.
proof fn lemma_pass_destinations(
    cands: Seq<StrategyPerformanceData>,
    k: int,
    available: int,
    limits: RiskLimits,
)
    requires
        0 <= k <= cands.len(),
        0 <= available <= u64::MAX,
    ensures
        ({
            let f = fee_entries(available, limits).len();
            let s = allocation_pass(cands, k, available, limits).0;
            &&& forall|j: int|
                f <= j < s.len() ==> exists|idx: int|
                    0 <= idx < k && (#[trigger] s[j]).strategy_id == #[trigger] cands[idx].strategy_id
            &&& distinct_candidates(cands) ==> forall|j1: int, j2: int|
                f <= j1 < j2 < s.len() ==> (#[trigger] s[j1]).strategy_id@ != (
                #[trigger] s[j2]).strategy_id@
        }),
    decreases k,
{
    lemma_pass_shape(cands, k, available, limits);
    if k > 0 {
        lemma_pass_destinations(cands, k - 1, available, limits);
        lemma_pass_shape(cands, k - 1, available, limits);
        let f = fee_entries(available, limits).len();
        let prev = allocation_pass(cands, k - 1, available, limits).0;
        let s = allocation_pass(cands, k, available, limits).0;
        if s.len() > prev.len() {
            assert forall|j: int| f <= j < s.len() implies exists|idx: int|
                0 <= idx < k && (#[trigger] s[j]).strategy_id == #[trigger] cands[idx].strategy_id by {
                if j < prev.len() {
                    let idx = choose|idx: int|
                        0 <= idx < k - 1 && (#[trigger] prev[j]).strategy_id
                            == #[trigger] cands[idx].strategy_id;
                    assert(s[j] == prev[j]);
                    assert(cands[idx].strategy_id == s[j].strategy_id);
                } else {
                    assert(s[j].strategy_id == cands[k - 1].strategy_id);
                }
            }
            if distinct_candidates(cands) {
                assert forall|j1: int, j2: int| f <= j1 < j2 < s.len() implies (
                #[trigger] s[j1]).strategy_id@ != (#[trigger] s[j2]).strategy_id@ by {
                    assert(s[j1] == prev[j1]);
                    if j2 < prev.len() {
                        assert(s[j2] == prev[j2]);
                    } else {
                        let idx = choose|idx: int|
                            0 <= idx < k - 1 && (#[trigger] prev[j1]).strategy_id
                                == #[trigger] cands[idx].strategy_id;
                        assert(cands[idx].strategy_id@ != cands[k - 1].strategy_id@);
                    }
                }
            }
        }
    }
}

/// What is allocated in a pass plus what is left equals the fees plus the capital
/// left after them.
proof fn lemma_pass_total(
    cands: Seq<StrategyPerformanceData>,
    k: int,
    available: int,
    limits: RiskLimits,
)
    requires
        0 <= k <= cands.len(),
        0 <= available <= u64::MAX,
    ensures
        amount_total(allocation_pass(cands, k, available, limits).0) + allocation_pass(
            cands,
            k,
            available,
            limits,
        ).1 == amount_total(fee_entries(available, limits)) + capital_after_fees(available, limits),
    decreases k,
{
    lemma_pass_shape(cands, k, available, limits);
    if k > 0 {
        lemma_pass_total(cands, k - 1, available, limits);
        lemma_pass_shape(cands, k - 1, available, limits);
        let prev = allocation_pass(cands, k - 1, available, limits);
        let cur = allocation_pass(cands, k, available, limits);
        if cur.0.len() > prev.0.len() {
            lemma_amount_total_push(prev.0, cur.0.last());
            assert(cur.0 == prev.0.push(cur.0.last()));
        }
    }
}

/// No two candidates share an identifier.
pub open spec fn distinct_candidates(cands: Seq<StrategyPerformanceData>) -> bool {
    forall|i: int, j: int|
        0 <= i < j < cands.len() ==> (#[trigger] cands[i]).strategy_id@ != (
        #[trigger] cands[j]).strategy_id@
}

proof fn lemma_plan_shape(available: int, cands: Seq<StrategyPerformanceData>, limits: RiskLimits)
    requires
        0 <= available <= u64::MAX,
    ensures
        ({
            let pass = allocation_pass(cands, cands.len() as int, available, limits);
            let plan = allocation_plan(available, cands, limits);
            let f = fee_entries(available, limits).len();
            &&& plan.len() == pass.0.len()
            &&& forall|j: int|
                0 <= j < plan.len() ==> (#[trigger] plan[j]).strategy_id == pass.0[j].strategy_id
                    && plan[j].allocation_type == pass.0[j].allocation_type && (!fees_overflow(
                    available,
                    limits,
                ) ==> plan[j].amount > 0)
            &&& forall|j: int| 0 <= j < f ==> #[trigger] plan[j] == fee_entries(available, limits)[j]
            &&& amount_total(plan) == amount_total(fee_entries(available, limits))
                + capital_after_fees(available, limits) || (amount_total(plan) + pass.1
                == amount_total(fee_entries(available, limits)) + capital_after_fees(
                available,
                limits,
            ) && 0 <= pass.1)
        }),
{
    let n = cands.len() as int;
    lemma_pass_shape(cands, n, available, limits);
    lemma_pass_total(cands, n, available, limits);
    lemma_fee_entries(available, limits);
    let pass = allocation_pass(cands, n, available, limits);
    let s = pass.0;
    let r = pass.1;
    let fees = fee_entries(available, limits);
    let j = first_top_from(s, 0);
    lemma_first_top(s, 0);
    assert forall|m: int| 0 <= m < fees.len() && !fees_overflow(available, limits) implies (
    #[trigger] s[m]).amount > 0 by {
        assert(s[m] == fees[m]);
    }
    if r > DUST_THRESHOLD && j >= 0 {
        if j < fees.len() {
            assert(s[j] == fees[j]);
        }
        let e = CapitalAllocation {
            strategy_id: s[j].strategy_id,
            amount: (s[j].amount + r) as u64,
            allocation_type: s[j].allocation_type,
        };
        lemma_amount_total_update(s, j, e);
    }
}

/// The allocator never hands out more than the capital it was given, provided the
/// two fee rates add up to at most 100%.
pub proof fn lemma_allocation_within_capital(
    available: u64,
    cands: Seq<StrategyPerformanceData>,
    limits: RiskLimits,
)
    requires
        limits.platform_fee_bps + limits.manager_fee_bps <= BPS_DENOMINATOR,
    ensures
        amount_total(allocation_plan(available as int, cands, limits)) <= available,
{
    lemma_plan_shape(available as int, cands, limits);
    lemma_fee_entries(available as int, limits);
}

/// Among the allocator's allocations, two with the same destination are never both
/// candidate allocations, provided the candidates' identifiers are distinct.
pub proof fn lemma_allocation_destinations_distinct(
    available: u64,
    cands: Seq<StrategyPerformanceData>,
    limits: RiskLimits,
)
    requires
        distinct_candidates(cands),
    ensures
        ({
            let plan = allocation_plan(available as int, cands, limits);
            forall|i: int, j: int|
                0 <= i < j < plan.len() && (#[trigger] plan[i]).strategy_id@ == (
                #[trigger] plan[j]).strategy_id@ ==> plan[i].allocation_type
                    == AllocationType::PlatformFee || plan[i].allocation_type
                    == AllocationType::ManagerIncentive
        }),
{
    let a = available as int;
    let n = cands.len() as int;
    lemma_plan_shape(a, cands, limits);
    lemma_pass_shape(cands, n, a, limits);
    lemma_pass_destinations(cands, n, a, limits);
    lemma_fee_entries(a, limits);
    let plan = allocation_plan(a, cands, limits);
    let s = allocation_pass(cands, n, a, limits).0;
    let fees = fee_entries(a, limits);
    assert forall|i: int, j: int|
        0 <= i < j < plan.len() && (#[trigger] plan[i]).strategy_id@ == (
        #[trigger] plan[j]).strategy_id@ implies plan[i].allocation_type
        == AllocationType::PlatformFee || plan[i].allocation_type
        == AllocationType::ManagerIncentive by {
        if i < fees.len() {
            assert(s[i] == fees[i]);
        } else {
            assert(s[i].strategy_id@ != s[j].strategy_id@);
        }
    }
}

/// A candidate whose capped share falls below its protocol's minimum balance gets no
/// allocation and takes no capital: the pass is unchanged by it.
pub proof fn lemma_below_protocol_minimum_skipped(
    cands: Seq<StrategyPerformanceData>,
    k: int,
    available: int,
    limits: RiskLimits,
)
    requires
        0 < k <= cands.len(),
        capped_share(
            cands[k - 1],
            allocation_pass(cands, k - 1, available, limits).1,
            available,
            performance_total(cands, cands.len() as int),
            limits,
        ) < crate::strategy::protocol_min_balance(cands[k - 1].protocol_type),
    ensures
        allocation_pass(cands, k, available, limits) == allocation_pass(cands, k - 1, available, limits),
{
}

/// What the allocator produces passes `validate_allocations`, whose total is then the
/// sum of the amounts, provided the fee rates add up to at most 100%, the capital is
/// below the per-allocation ceiling, and the treasuries and candidates all have
/// distinct identifiers.
pub proof fn lemma_allocation_validates(
    available: u64,
    cands: Seq<StrategyPerformanceData>,
    limits: RiskLimits,
)
    requires
        limits.platform_fee_bps + limits.manager_fee_bps <= BPS_DENOMINATOR,
        available < amount_ceiling(),
        distinct_candidates(cands),
        limits.platform_treasury@ != limits.manager_treasury@,
        forall|i: int|
            0 <= i < cands.len() ==> (#[trigger] cands[i]).strategy_id@ != limits.platform_treasury@
                && cands[i].strategy_id@ != limits.manager_treasury@,
    ensures
        allocations_valid(allocation_plan(available as int, cands, limits)),
        amount_total(allocation_plan(available as int, cands, limits)) <= available,
{
    let a = available as int;
    let n = cands.len() as int;
    lemma_allocation_within_capital(available, cands, limits);
    lemma_plan_shape(a, cands, limits);
    lemma_pass_shape(cands, n, a, limits);
    lemma_pass_destinations(cands, n, a, limits);
    lemma_fee_entries(a, limits);
    let plan = allocation_plan(a, cands, limits);
    let s = allocation_pass(cands, n, a, limits).0;
    let fees = fee_entries(a, limits);
    let f = fees.len() as int;
    assert forall|i: int| 0 <= i < plan.len() implies (#[trigger] allocation_fault(plan, i)) is None by {
        lemma_amount_total_prefix(plan, i);
        assert forall|j: int| 0 <= j < i implies #[trigger] plan[j].strategy_id@ != plan[i].strategy_id@ by {
            if j < f && i < f {
                assert(plan[j] == fees[j]);
                assert(plan[i] == fees[i]);
            } else if j < f {
                assert(plan[j] == fees[j]);
                let idx = choose|idx: int|
                    0 <= idx < n && (#[trigger] s[i]).strategy_id == #[trigger] cands[idx].strategy_id;
                assert(cands[idx].strategy_id@ != limits.platform_treasury@);
            } else {
                assert(s[j].strategy_id@ != s[i].strategy_id@);
            }
        }
    }
}

} // verus!
