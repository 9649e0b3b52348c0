//! Rebalancing engine for a pooled-capital portfolio: ranks strategies by
//! performance, derives a volatility-adjusted underperformance threshold, and plans
//! how capital extracted from underperformers is split over fees and the best
//! strategies. Every function is a pure computation over the values it is given.

pub mod allocation;
pub mod capital_position;
pub mod errors;
pub mod plan;
pub mod portfolio;
pub mod pubkey;
pub mod ranking;
pub mod strategy;
pub mod threshold;

pub use allocation::{
    calculate_optimal_allocation, calculate_risk_adjustment, validate_allocations, AllocationType,
    CapitalAllocation, RiskLimits, StrategyPerformanceData,
};
pub use capital_position::{CapitalPosition, PositionType};
pub use errors::RebalancerErrorCode;
pub use plan::{calculate_expected_improvement, execute_complete_rebalancing, RebalancingPlan};
pub use portfolio::{execute_ranking_cycle, initialize_portfolio, redistribute_capital, Portfolio};
pub use pubkey::Pubkey;
pub use ranking::{calculate_percentile_rankings, should_rebalance_strategy, StrategyData};
pub use strategy::{ProtocolType, Strategy, StrategyStatus};
pub use threshold::{calculate_average_volatility, calculate_dynamic_threshold};
