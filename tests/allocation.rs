use std::collections::HashMap;

use rebalancer::{
    calculate_optimal_allocation, calculate_risk_adjustment, validate_allocations, AllocationType, CapitalAllocation,
    ProtocolType, Pubkey, RebalancerErrorCode, RiskLimits, StrategyPerformanceData,
};

fn key(n: u8) -> Pubkey {
    Pubkey::new_from_array([n; 32])
}

fn wide_key(n: u16) -> Pubkey {
    let mut bytes = [0u8; 32];
    bytes[0] = (n >> 8) as u8;
    bytes[1] = (n & 0xff) as u8;
    bytes[2] = 1;
    Pubkey::new_from_array(bytes)
}

fn lending() -> ProtocolType {
    ProtocolType::StableLending { pool_id: key(200), utilization: 7500, reserve_address: key(201) }
}

fn farming() -> ProtocolType {
    ProtocolType::YieldFarming {
        pair_id: key(202),
        reward_multiplier: 3,
        token_a_mint: key(203),
        token_b_mint: key(204),
        fee_tier: 300,
    }
}

fn staking() -> ProtocolType {
    ProtocolType::LiquidStaking { validator_id: key(205), commission: 500, stake_pool: key(206), unstake_delay: 10 }
}

fn candidate(id: u8, performance_score: u64, volatility_score: u32, protocol_type: ProtocolType) -> StrategyPerformanceData {
    StrategyPerformanceData {
        strategy_id: key(id),
        performance_score,
        current_balance: 1_000_000_000,
        volatility_score,
        protocol_type,
        percentile_rank: 90,
    }
}

fn entry(strategy_id: Pubkey, amount: u64, allocation_type: AllocationType) -> CapitalAllocation {
    CapitalAllocation { strategy_id, amount, allocation_type }
}

fn summary(allocations: &[CapitalAllocation]) -> Vec<(Pubkey, u64, AllocationType)> {
    allocations.iter().map(|a| (a.strategy_id, a.amount, a.allocation_type)).collect()
}

fn treasuries() -> RiskLimits {
    let mut limits = RiskLimits::default();
    limits.platform_treasury = key(250);
    limits.manager_treasury = key(251);
    limits
}

#[test]
fn test_optimal_allocation_calculation() {
    let available_capital = 10_000_000_000u64;
    let top_strategies = vec![
        StrategyPerformanceData {
            strategy_id: key(1),
            performance_score: 8000,
            current_balance: 1_000_000_000,
            volatility_score: 2000,
            protocol_type: lending(),
            percentile_rank: 90,
        },
        StrategyPerformanceData {
            strategy_id: key(2),
            performance_score: 7000,
            current_balance: 2_000_000_000,
            volatility_score: 3000,
            protocol_type: farming(),
            percentile_rank: 85,
        },
        StrategyPerformanceData {
            strategy_id: key(3),
            performance_score: 6000,
            current_balance: 500_000_000,
            volatility_score: 4000,
            protocol_type: staking(),
            percentile_rank: 80,
        },
    ];
    let risk_limits = RiskLimits::default();
    let allocations = calculate_optimal_allocation(available_capital, &top_strategies, &risk_limits).unwrap();
    assert!(!allocations.is_empty());
    let total_allocated: u64 = allocations.iter().map(|a| a.amount).sum();
    assert!(total_allocated <= available_capital);
    let strategy_allocations: HashMap<Pubkey, u64> = allocations
        .iter()
        .filter(|a| matches!(a.allocation_type, AllocationType::TopPerformer | AllocationType::RiskDiversification))
        .map(|a| (a.strategy_id, a.amount))
        .collect();
    if strategy_allocations.len() >= 2 {
        let top_strategy_allocation = strategy_allocations.get(&top_strategies[0].strategy_id).unwrap_or(&0);
        let second_strategy_allocation = strategy_allocations.get(&top_strategies[1].strategy_id).unwrap_or(&0);
        assert!(top_strategy_allocation >= second_strategy_allocation);
    }
    println!("Test allocation results:");
    for allocation in &allocations {
        println!("  Strategy: {:?}, Amount: {}, Type: {:?}", allocation.strategy_id, allocation.amount, allocation.allocation_type);
    }
}

#[test]
fn allocation_exact_amounts_with_dust_sweep() {
    let cands = vec![candidate(1, 8000, 2000, lending()), candidate(2, 7000, 3000, farming()), candidate(3, 6000, 4000, staking())];
    let allocations = calculate_optimal_allocation(10_000_000_000, &cands, &RiskLimits::default()).unwrap();
    assert_eq!(
        summary(&allocations),
        vec![
            (Pubkey::default(), 50_000_000, AllocationType::PlatformFee),
            (Pubkey::default(), 150_000_000, AllocationType::ManagerIncentive),
            (key(1), 6_894_758_401, AllocationType::TopPerformer),
            (key(2), 1_893_546_666, AllocationType::TopPerformer),
            (key(3), 1_011_694_933, AllocationType::TopPerformer),
        ]
    );
    let total: u64 = allocations.iter().map(|a| a.amount).sum();
    assert_eq!(total, 10_000_000_000);
}

#[test]
fn fourth_candidate_is_diversification() {
    let cands: Vec<StrategyPerformanceData> = (1u8..=4).map(|i| candidate(i, 1000, 0, lending())).collect();
    let allocations = calculate_optimal_allocation(100_000_000_000, &cands, &RiskLimits::default()).unwrap();
    assert_eq!(
        summary(&allocations),
        vec![
            (Pubkey::default(), 500_000_000, AllocationType::PlatformFee),
            (Pubkey::default(), 1_500_000_000, AllocationType::ManagerIncentive),
            (key(1), 52_929_800_000, AllocationType::TopPerformer),
            (key(2), 20_580_000_000, AllocationType::TopPerformer),
            (key(3), 14_406_000_000, AllocationType::TopPerformer),
            (key(4), 10_084_200_000, AllocationType::RiskDiversification),
        ]
    );
}

#[test]
fn candidate_below_protocol_minimum_gets_nothing() {
    let cands = vec![candidate(1, 5000, 0, staking()), candidate(2, 5000, 0, lending())];
    let allocations = calculate_optimal_allocation(1_000_000_000, &cands, &RiskLimits::default()).unwrap();
    assert_eq!(
        summary(&allocations),
        vec![
            (Pubkey::default(), 5_000_000, AllocationType::PlatformFee),
            (Pubkey::default(), 15_000_000, AllocationType::ManagerIncentive),
            (key(2), 980_000_000, AllocationType::TopPerformer),
        ]
    );
}

#[test]
fn only_fees_when_every_candidate_is_skipped() {
    let cands = vec![candidate(1, 1, 0, staking())];
    let allocations = calculate_optimal_allocation(1_000_000_000, &cands, &RiskLimits::default()).unwrap();
    assert_eq!(
        summary(&allocations),
        vec![
            (Pubkey::default(), 5_000_000, AllocationType::PlatformFee),
            (Pubkey::default(), 15_000_000, AllocationType::ManagerIncentive),
        ]
    );
}

#[test]
fn allocation_errors() {
    let cands = vec![candidate(1, 1000, 0, lending())];
    let limits = RiskLimits::default();
    assert_eq!(calculate_optimal_allocation(0, &cands, &limits).unwrap_err(), RebalancerErrorCode::InsufficientBalance);
    assert_eq!(calculate_optimal_allocation(1000, &[], &limits).unwrap_err(), RebalancerErrorCode::InsufficientStrategies);
    let zero = vec![candidate(1, 0, 0, lending()), candidate(2, 0, 0, lending())];
    assert_eq!(calculate_optimal_allocation(1000, &zero, &limits).unwrap_err(), RebalancerErrorCode::InvalidPerformanceScore);
    let mut greedy = RiskLimits::default();
    greedy.platform_fee_bps = u64::MAX;
    assert_eq!(calculate_optimal_allocation(u64::MAX, &cands, &greedy).unwrap_err(), RebalancerErrorCode::BalanceOverflow);
}

#[test]
fn allocation_round_trip_validates() {
    let cands = vec![candidate(1, 8000, 2000, lending()), candidate(2, 7000, 3000, farming()), candidate(3, 6000, 4000, staking())];
    let allocations = calculate_optimal_allocation(10_000_000_000, &cands, &treasuries()).unwrap();
    let produced: u64 = allocations.iter().map(|a| a.amount).sum();
    assert_eq!(validate_allocations(&allocations), Ok(produced));
    assert!(produced <= 10_000_000_000);
}

#[test]
fn default_treasuries_collide_in_validation() {
    let cands = vec![candidate(1, 8000, 2000, lending())];
    let allocations = calculate_optimal_allocation(10_000_000_000, &cands, &RiskLimits::default()).unwrap();
    assert_eq!(validate_allocations(&allocations), Err(RebalancerErrorCode::DuplicateStrategy));
}

#[test]
fn default_risk_limits() {
    let limits = RiskLimits::default();
    assert_eq!(limits.max_single_strategy_bps, 4000);
    assert_eq!(limits.min_single_strategy_bps, 100);
    assert_eq!(limits.platform_fee_bps, 50);
    assert_eq!(limits.manager_fee_bps, 150);
    assert_eq!(limits.risk_tolerance_bps, 8000);
    assert!(limits.platform_treasury.is_default());
    assert!(limits.manager_treasury.is_default());
}

#[test]
fn test_risk_adjustment_calculation() {
    let risk_limits = RiskLimits::default();
    let low_vol_adjustment = calculate_risk_adjustment(1000, &risk_limits);
    let high_vol_adjustment = calculate_risk_adjustment(8000, &risk_limits);
    assert!(low_vol_adjustment > high_vol_adjustment);
    assert!(low_vol_adjustment <= 15000);
    assert!(high_vol_adjustment >= 5000);
    println!("Risk adjustments - Low vol: {}, High vol: {}", low_vol_adjustment, high_vol_adjustment);
}

#[test]
fn risk_adjustment_exact_values() {
    let limits = RiskLimits::default();
    assert_eq!(calculate_risk_adjustment(1000, &limits), 11200);
    assert_eq!(calculate_risk_adjustment(8000, &limits), 5600);
    assert_eq!(calculate_risk_adjustment(0, &limits), 12000);
    assert_eq!(calculate_risk_adjustment(20000, &limits), 4000);
    let mut bold = RiskLimits::default();
    bold.risk_tolerance_bps = 20000;
    assert_eq!(calculate_risk_adjustment(0, &bold), 15000);
    bold.risk_tolerance_bps = u64::MAX;
    assert_eq!(calculate_risk_adjustment(10000, &bold), 15000);
    bold.risk_tolerance_bps = 10000;
    assert_eq!(calculate_risk_adjustment(5000, &bold), 10000);
}

#[test]
fn risk_adjustment_never_rises_with_volatility() {
    let limits = RiskLimits::default();
    let mut previous = calculate_risk_adjustment(0, &limits);
    for v in (0u32..=12000).step_by(250) {
        let current = calculate_risk_adjustment(v, &limits);
        assert!(current <= previous);
        assert!(current >= 4000 && current <= 12000);
        previous = current;
    }
}

#[test]
fn validation_totals_a_clean_batch() {
    let batch = vec![entry(key(1), 10, AllocationType::TopPerformer), entry(key(2), 32, AllocationType::PlatformFee)];
    assert_eq!(validate_allocations(&batch), Ok(42));
    assert_eq!(validate_allocations(&[]), Ok(0));
}

#[test]
fn validation_errors() {
    let dup = vec![entry(key(1), 10, AllocationType::TopPerformer), entry(key(1), 5, AllocationType::TopPerformer)];
    assert_eq!(validate_allocations(&dup), Err(RebalancerErrorCode::DuplicateStrategy));
    let zero = vec![entry(key(1), 0, AllocationType::TopPerformer)];
    assert_eq!(validate_allocations(&zero), Err(RebalancerErrorCode::InsufficientBalance));
    let huge = vec![entry(key(1), u64::MAX / 1000, AllocationType::TopPerformer)];
    assert_eq!(validate_allocations(&huge), Err(RebalancerErrorCode::BalanceOverflow));
    let first_fault_wins = vec![entry(key(1), 0, AllocationType::TopPerformer), entry(key(1), 5, AllocationType::TopPerformer)];
    assert_eq!(validate_allocations(&first_fault_wins), Err(RebalancerErrorCode::InsufficientBalance));
}

#[test]
fn validation_detects_total_overflow() {
    let batch: Vec<CapitalAllocation> =
        (0u16..1001).map(|i| entry(wide_key(i), u64::MAX / 1000 - 1, AllocationType::RiskDiversification)).collect();
    assert_eq!(validate_allocations(&batch), Err(RebalancerErrorCode::BalanceOverflow));
    assert!(validate_allocations(&batch[..1000]).is_ok());
}
