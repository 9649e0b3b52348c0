use rebalancer::{calculate_average_volatility, calculate_dynamic_threshold, Pubkey, RebalancerErrorCode, StrategyData};

fn key(n: u8) -> Pubkey {
    Pubkey::new_from_array([n; 32])
}

fn data(id: u8, performance_score: u64, current_balance: u64, volatility_score: u32) -> StrategyData {
    StrategyData {
        strategy_id: key(id),
        performance_score,
        current_balance,
        volatility_score,
        percentile_rank: 0,
        rebalance_threshold: 0,
    }
}

#[test]
fn test_calculate_average_volatility_normal() {
    let strategies = vec![
        data(1, 1000, 1_000_000_000, 2000),
        data(2, 2000, 2_000_000_000, 3000),
        data(3, 3000, 3_000_000_000, 4000),
    ];
    let average = calculate_average_volatility(&strategies).unwrap();
    assert_eq!(average, 3000);
}

#[test]
fn test_calculate_average_volatility_empty() {
    let strategies: Vec<StrategyData> = vec![];
    let result = calculate_average_volatility(&strategies);
    assert!(result.is_err());
    assert_eq!(result.unwrap_err(), RebalancerErrorCode::InsufficientStrategies);
}

#[test]
fn test_calculate_average_volatility_single() {
    let strategies = vec![data(1, 1000, 1_000_000_000, 5000)];
    let average = calculate_average_volatility(&strategies).unwrap();
    assert_eq!(average, 5000);
}

#[test]
fn average_volatility_rounds_down() {
    let strategies = vec![data(1, 1, 1, 1), data(2, 1, 1, 2)];
    assert_eq!(calculate_average_volatility(&strategies), Ok(1));
}

#[test]
fn average_volatility_of_largest_scores_does_not_overflow() {
    let strategies = vec![data(1, 1, 1, u32::MAX), data(2, 1, 1, u32::MAX), data(3, 1, 1, u32::MAX)];
    assert_eq!(calculate_average_volatility(&strategies), Ok(u32::MAX));
}

#[test]
fn test_calculate_dynamic_threshold_normal() {
    assert_eq!(calculate_dynamic_threshold(15, 3000).unwrap(), 21);
}

#[test]
fn test_calculate_dynamic_threshold_low_volatility() {
    assert_eq!(calculate_dynamic_threshold(15, 500).unwrap(), 16);
}

#[test]
fn test_calculate_dynamic_threshold_high_volatility() {
    assert_eq!(calculate_dynamic_threshold(15, 10000).unwrap(), 35);
}

#[test]
fn test_calculate_dynamic_threshold_clamping_min() {
    assert_eq!(calculate_dynamic_threshold(15, 100).unwrap(), 15);
}

#[test]
fn test_calculate_dynamic_threshold_clamping_max() {
    assert_eq!(calculate_dynamic_threshold(15, 15000).unwrap(), 40);
}

#[test]
fn test_calculate_dynamic_threshold_extreme_clamping_min() {
    assert_eq!(calculate_dynamic_threshold(5, 100).unwrap(), 10);
}

#[test]
fn test_calculate_dynamic_threshold_invalid_base() {
    let result = calculate_dynamic_threshold(150, 3000);
    assert!(result.is_err());
    assert_eq!(result.unwrap_err(), RebalancerErrorCode::InvalidRebalanceThreshold);
}

#[test]
fn dynamic_threshold_accepts_base_of_one_hundred() {
    assert_eq!(calculate_dynamic_threshold(100, 0), Ok(40));
    assert_eq!(calculate_dynamic_threshold(101, 0), Err(RebalancerErrorCode::InvalidRebalanceThreshold));
}

#[test]
fn dynamic_threshold_does_not_wrap_on_huge_volatility() {
    assert_eq!(calculate_dynamic_threshold(0, u32::MAX), Ok(40));
    assert_eq!(calculate_dynamic_threshold(0, 0), Ok(10));
    assert_eq!(calculate_dynamic_threshold(20, 4999), Ok(29));
}
