use vstd::prelude::*;

verus! {

/// Every failure the rebalancing engine reports to its caller.
#[derive(Clone, Copy, Debug, PartialEq, Eq, Structural)]
pub enum RebalancerErrorCode {
    InvalidRebalanceThreshold,
    InvalidRebalanceInterval,
    InvalidManager,
    InvalidStrategyId,
    ExcessiveYieldRate,
    BalanceOverflow,
    InsufficientBalance,
    EmergencyPaused,
    StrategyNotFound,
    UnauthorizedManager,
    InvalidVolatilityScore,
    InvalidPoolId,
    InvalidReserveAddress,
    InvalidUtilization,
    InvalidPairId,
    InvalidTokenMint,
    DuplicateTokenMints,
    InvalidRewardMultiplier,
    InvalidFeeTier,
    InvalidValidatorId,
    InvalidStakePool,
    InvalidCommission,
    InvalidUnstakeDelay,
    InsufficientStrategies,
    TooManyStrategies,
    InvalidProtocolType,
    DuplicateStrategy,
    InvalidPerformanceScore,
}

impl RebalancerErrorCode {
    /// The human-readable message attached to each error.
    pub fn message(&self) -> (r: &'static str) {
        match self {
            RebalancerErrorCode::InvalidRebalanceThreshold => "Rebalance threshold must be between 1-50%",
            RebalancerErrorCode::InvalidRebalanceInterval => "Rebalance interval must be between 1 hour and 1 day",
            RebalancerErrorCode::InvalidManager => "Manager cannot be default pubkey",
            RebalancerErrorCode::InvalidStrategyId => "Strategy ID cannot be default pubkey",
            RebalancerErrorCode::ExcessiveYieldRate => "Yield rate exceeds maximum allowed (500%)",
            RebalancerErrorCode::BalanceOverflow => "Balance update would cause overflow",
            RebalancerErrorCode::InsufficientBalance => "Insufficient balance for operation",
            RebalancerErrorCode::EmergencyPaused => "Portfolio is in emergency pause mode",
            RebalancerErrorCode::StrategyNotFound => "Strategy not found or invalid",
            RebalancerErrorCode::UnauthorizedManager => "Unauthorized: caller is not portfolio manager",
            RebalancerErrorCode::InvalidVolatilityScore => "Invalid volatility score, must be 0-10000",
            RebalancerErrorCode::InvalidPoolId => "Invalid pool ID",
            RebalancerErrorCode::InvalidReserveAddress => "Invalid reserve address",
            RebalancerErrorCode::InvalidUtilization => "Invalid utilization rate",
            RebalancerErrorCode::InvalidPairId => "Invalid pair ID",
            RebalancerErrorCode::InvalidTokenMint => "Invalid token mint",
            RebalancerErrorCode::DuplicateTokenMints => "Token mints cannot be identical",
            RebalancerErrorCode::InvalidRewardMultiplier => "Invalid reward multiplier",
            RebalancerErrorCode::InvalidFeeTier => "Invalid fee tier",
            RebalancerErrorCode::InvalidValidatorId => "Invalid validator ID",
            RebalancerErrorCode::InvalidStakePool => "Invalid stake pool",
            RebalancerErrorCode::InvalidCommission => "Invalid commission rate",
            RebalancerErrorCode::InvalidUnstakeDelay => "Invalid unstake delay",
            RebalancerErrorCode::InsufficientStrategies => "Insufficient strategies for rebalancing (minimum 2 required)",
            RebalancerErrorCode::TooManyStrategies => "Too many strategies for single operation (max 10)",
            RebalancerErrorCode::InvalidProtocolType => "Invalid protocol type for operation",
            RebalancerErrorCode::DuplicateStrategy => "Duplicate strategy in allocation",
            RebalancerErrorCode::InvalidPerformanceScore => "Invalid performance score for calculation",
        }
    }
}

} // verus!
