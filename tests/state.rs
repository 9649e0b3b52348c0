use rebalancer::{
    execute_ranking_cycle, initialize_portfolio, redistribute_capital, AllocationType, CapitalAllocation, Portfolio,
    ProtocolType, Pubkey, RebalancerErrorCode, Strategy,
};

fn key(n: u8) -> Pubkey {
    Pubkey::new_from_array([n; 32])
}

fn portfolio() -> Portfolio {
    initialize_portfolio(key(1), 15, 3600, 1_000, 254).unwrap()
}

fn entry(id: u8, amount: u64) -> CapitalAllocation {
    CapitalAllocation { strategy_id: key(id), amount, allocation_type: AllocationType::TopPerformer }
}

#[test]
fn pubkey_default_and_equality() {
    assert!(Pubkey::default().is_default());
    assert_eq!(Pubkey::default(), Pubkey::new_from_array([0; 32]));
    assert!(!key(1).is_default());
    let mut bytes = [0u8; 32];
    bytes[31] = 1;
    assert!(!Pubkey::new_from_array(bytes).is_default());
    assert_ne!(Pubkey::new_from_array(bytes), Pubkey::default());
    assert_eq!(key(7).to_bytes(), [7u8; 32]);
}

#[test]
fn portfolio_initialization() {
    let p = portfolio();
    assert_eq!(p.manager, key(1));
    assert_eq!(p.base_threshold, 15);
    assert_eq!(p.min_rebalance_interval, 3600);
    assert_eq!(p.last_rebalance, 1_000);
    assert_eq!(p.portfolio_creation, 1_000);
    assert_eq!(p.performance_fee_bps, 200);
    assert_eq!(p.total_strategies, 0);
    assert_eq!(p.total_capital_moved, 0);
    assert!(!p.emergency_pause);
    assert_eq!(p.bump, 254);
}

#[test]
fn portfolio_initialization_errors() {
    assert_eq!(initialize_portfolio(Pubkey::default(), 15, 3600, 0, 0).unwrap_err(), RebalancerErrorCode::InvalidManager);
    assert_eq!(initialize_portfolio(key(1), 0, 3600, 0, 0).unwrap_err(), RebalancerErrorCode::InvalidRebalanceThreshold);
    assert_eq!(initialize_portfolio(key(1), 51, 3600, 0, 0).unwrap_err(), RebalancerErrorCode::InvalidRebalanceThreshold);
    assert_eq!(initialize_portfolio(key(1), 50, 0, 0, 0).unwrap_err(), RebalancerErrorCode::InvalidRebalanceInterval);
    assert_eq!(initialize_portfolio(key(1), 1, 86401, 0, 0).unwrap_err(), RebalancerErrorCode::InvalidRebalanceInterval);
    assert!(initialize_portfolio(key(1), 1, 86400, 0, 0).is_ok());
}

#[test]
fn portfolio_validators() {
    assert!(Portfolio::validate_base_threshold(1).is_ok());
    assert!(Portfolio::validate_base_threshold(50).is_ok());
    assert_eq!(Portfolio::validate_base_threshold(0), Err(RebalancerErrorCode::InvalidRebalanceThreshold));
    assert_eq!(Portfolio::validate_base_threshold(51), Err(RebalancerErrorCode::InvalidRebalanceThreshold));
    assert!(Portfolio::validate_min_interval(1).is_ok());
    assert!(Portfolio::validate_min_interval(86400).is_ok());
    assert_eq!(Portfolio::validate_min_interval(0), Err(RebalancerErrorCode::InvalidRebalanceInterval));
    assert_eq!(Portfolio::validate_min_interval(-5), Err(RebalancerErrorCode::InvalidRebalanceInterval));
}

#[test]
fn can_rebalance_after_interval() {
    let mut p = portfolio();
    assert!(!p.can_rebalance(4_599));
    assert!(p.can_rebalance(4_600));
    p.last_rebalance = i64::MAX - 10;
    assert!(!p.can_rebalance(i64::MAX - 1));
    assert!(p.can_rebalance(i64::MAX));
    p.emergency_pause = true;
    assert!(!p.can_rebalance(i64::MAX));
}

#[test]
fn ranking_cycle_gates() {
    let mut p = portfolio();
    p.total_strategies = 2;
    assert_eq!(execute_ranking_cycle(&mut p, 4_000), Err(RebalancerErrorCode::InvalidRebalanceInterval));
    assert_eq!(p.last_rebalance, 1_000);
    assert_eq!(execute_ranking_cycle(&mut p, 5_000), Ok(()));
    assert_eq!(p.last_rebalance, 5_000);
    p.total_strategies = 1;
    assert_eq!(execute_ranking_cycle(&mut p, 10_000), Err(RebalancerErrorCode::InsufficientStrategies));
    p.emergency_pause = true;
    assert_eq!(execute_ranking_cycle(&mut p, 20_000), Err(RebalancerErrorCode::EmergencyPaused));
    assert_eq!(p.last_rebalance, 5_000);
}

#[test]
fn redistribution_adds_to_capital_moved() {
    let mut p = portfolio();
    assert_eq!(redistribute_capital(&mut p, &[entry(2, 100), entry(3, 250)]), Ok(()));
    assert_eq!(p.total_capital_moved, 350);
    assert_eq!(redistribute_capital(&mut p, &[]), Err(RebalancerErrorCode::InsufficientStrategies));
    let many: Vec<CapitalAllocation> = (1u8..=21).map(|i| entry(i, 1)).collect();
    assert_eq!(redistribute_capital(&mut p, &many), Err(RebalancerErrorCode::TooManyStrategies));
    assert_eq!(redistribute_capital(&mut p, &many[..20]), Ok(()));
    assert_eq!(p.total_capital_moved, 370);
    assert_eq!(redistribute_capital(&mut p, &[entry(2, 1), entry(2, 1)]), Err(RebalancerErrorCode::DuplicateStrategy));
    p.total_capital_moved = u64::MAX - 5;
    assert_eq!(redistribute_capital(&mut p, &[entry(2, 6)]), Err(RebalancerErrorCode::BalanceOverflow));
    assert_eq!(p.total_capital_moved, u64::MAX - 5);
    p.emergency_pause = true;
    assert_eq!(redistribute_capital(&mut p, &[entry(2, 1)]), Err(RebalancerErrorCode::EmergencyPaused));
}

#[test]
fn strategy_validators() {
    assert!(Strategy::validate_yield_rate(50000).is_ok());
    assert_eq!(Strategy::validate_yield_rate(50001), Err(RebalancerErrorCode::ExcessiveYieldRate));
    assert!(Strategy::validate_balance_update(u64::MAX / 1000 - 1).is_ok());
    assert_eq!(Strategy::validate_balance_update(u64::MAX / 1000), Err(RebalancerErrorCode::BalanceOverflow));
    assert!(Strategy::validate_volatility_score(10000).is_ok());
    assert_eq!(Strategy::validate_volatility_score(10001), Err(RebalancerErrorCode::InvalidVolatilityScore));
}

#[test]
fn protocol_validation() {
    let z = Pubkey::default();
    let lending = |pool_id, reserve_address, utilization| ProtocolType::StableLending { pool_id, reserve_address, utilization };
    assert!(lending(key(1), key(2), 10000).validate().is_ok());
    assert_eq!(lending(z, key(2), 1).validate(), Err(RebalancerErrorCode::InvalidPoolId));
    assert_eq!(lending(key(1), z, 1).validate(), Err(RebalancerErrorCode::InvalidReserveAddress));
    assert_eq!(lending(key(1), key(2), 10001).validate(), Err(RebalancerErrorCode::InvalidUtilization));

    let farming = |pair_id, token_a_mint, token_b_mint, fee_tier, reward_multiplier| ProtocolType::YieldFarming {
        pair_id,
        token_a_mint,
        token_b_mint,
        fee_tier,
        reward_multiplier,
    };
    assert!(farming(key(1), key(2), key(3), 1000, 10).validate().is_ok());
    assert_eq!(farming(z, key(2), key(3), 1, 1).validate(), Err(RebalancerErrorCode::InvalidPairId));
    assert_eq!(farming(key(1), z, key(3), 1, 1).validate(), Err(RebalancerErrorCode::InvalidTokenMint));
    assert_eq!(farming(key(1), key(2), z, 1, 1).validate(), Err(RebalancerErrorCode::InvalidTokenMint));
    assert_eq!(farming(key(1), key(2), key(2), 1, 1).validate(), Err(RebalancerErrorCode::DuplicateTokenMints));
    assert_eq!(farming(key(1), key(2), key(3), 1, 0).validate(), Err(RebalancerErrorCode::InvalidRewardMultiplier));
    assert_eq!(farming(key(1), key(2), key(3), 1, 11).validate(), Err(RebalancerErrorCode::InvalidRewardMultiplier));
    assert_eq!(farming(key(1), key(2), key(3), 1001, 1).validate(), Err(RebalancerErrorCode::InvalidFeeTier));

    let staking = |validator_id, stake_pool, unstake_delay, commission| ProtocolType::LiquidStaking {
        validator_id,
        stake_pool,
        unstake_delay,
        commission,
    };
    assert!(staking(key(1), key(2), 50, 1000).validate().is_ok());
    assert_eq!(staking(z, key(2), 1, 1).validate(), Err(RebalancerErrorCode::InvalidValidatorId));
    assert_eq!(staking(key(1), z, 1, 1).validate(), Err(RebalancerErrorCode::InvalidStakePool));
    assert_eq!(staking(key(1), key(2), 1, 1001).validate(), Err(RebalancerErrorCode::InvalidCommission));
    assert_eq!(staking(key(1), key(2), 51, 1).validate(), Err(RebalancerErrorCode::InvalidUnstakeDelay));
}

#[test]
fn protocol_names_tokens_and_minimums() {
    let lending = ProtocolType::StableLending { pool_id: key(1), reserve_address: key(2), utilization: 1 };
    let farming = ProtocolType::YieldFarming {
        pair_id: key(3),
        token_a_mint: key(4),
        token_b_mint: key(5),
        fee_tier: 1,
        reward_multiplier: 1,
    };
    let staking = ProtocolType::LiquidStaking { validator_id: key(6), stake_pool: key(7), unstake_delay: 1, commission: 1 };
    assert_eq!(lending.get_protocol_name(), "Stable Lending");
    assert_eq!(farming.get_protocol_name(), "Yield Farming");
    assert_eq!(staking.get_protocol_name(), "Liquid Staking");
    assert_eq!(lending.get_expected_tokens(), vec![key(2)]);
    assert_eq!(farming.get_expected_tokens(), vec![key(4), key(5)]);
    assert_eq!(staking.get_expected_tokens(), vec![key(7)]);
    assert!(lending.validate_balance_constraints(100_000_000).is_ok());
    assert_eq!(lending.validate_balance_constraints(99_999_999), Err(RebalancerErrorCode::InsufficientBalance));
    assert!(farming.validate_balance_constraints(500_000_000).is_ok());
    assert_eq!(farming.validate_balance_constraints(499_999_999), Err(RebalancerErrorCode::InsufficientBalance));
    assert!(staking.validate_balance_constraints(1_000_000_000).is_ok());
    assert_eq!(staking.validate_balance_constraints(999_999_999), Err(RebalancerErrorCode::InsufficientBalance));
}

#[test]
fn error_messages() {
    assert_eq!(RebalancerErrorCode::DuplicateStrategy.message(), "Duplicate strategy in allocation");
    assert_eq!(RebalancerErrorCode::EmergencyPaused.message(), "Portfolio is in emergency pause mode");
}
