use vstd::prelude::*;

use crate::errors::RebalancerErrorCode;
use crate::pubkey::{zero_key, Pubkey};

verus! {

/// Largest accepted annual yield, in basis points (500%).
pub const MAX_YIELD_RATE_BPS: u64 = 50000;

/// Largest accepted volatility score, in basis points (100.00%).
pub const MAX_VOLATILITY_BPS: u32 = 10000;

/// Smallest capital a lending position can hold (0.1 of the currency unit).
pub const STABLE_LENDING_MIN_BALANCE: u64 = 100_000_000;

/// Smallest capital a liquidity-pair position can hold (0.5 of the currency unit).
pub const YIELD_FARMING_MIN_BALANCE: u64 = 500_000_000;

/// Smallest capital a staking position can hold (1 currency unit).
pub const LIQUID_STAKING_MIN_BALANCE: u64 = 1_000_000_000;

/// An investment destination and its latest metrics.
#[derive(Clone, Copy, Debug)]
pub struct Strategy {
    pub strategy_id: Pubkey,
    pub current_balance: u64,
    /// Annual yield in basis points (0..=50000).
    pub yield_rate: u64,
    pub performance_score: u64,
    pub total_deposits: u64,
    pub total_withdrawals: u64,
    pub protocol_type: ProtocolType,
    /// Risk metric in basis points (0..=10000).
    pub volatility_score: u32,
    pub last_updated: i64,
    pub creation_time: i64,
    pub status: StrategyStatus,
    /// Standing within the cohort, 0 (worst) to 100 (best).
    pub percentile_rank: u8,
    pub bump: u8,
}

/// The protocol a strategy invests through, with its protocol-specific parameters.
#[derive(Clone, Copy, Debug)]
pub enum ProtocolType {
    StableLending { pool_id: Pubkey, reserve_address: Pubkey, utilization: u16 },
    YieldFarming {
        pair_id: Pubkey,
        token_a_mint: Pubkey,
        token_b_mint: Pubkey,
        fee_tier: u16,
        reward_multiplier: u8,
    },
    LiquidStaking { validator_id: Pubkey, stake_pool: Pubkey, unstake_delay: u32, commission: u16 },
}

#[derive(Clone, Copy, Debug, PartialEq, Eq, Structural)]
pub enum StrategyStatus {
    /// Normal operation; takes part in rebalancing.
    Active,
    /// Temporarily disabled; receives no new allocations.
    Paused,
    /// Marked for removal; capital is extracted when possible.
    Deprecated,
}

/// The smallest balance a position of the given protocol may hold.
pub open spec fn protocol_min_balance(p: ProtocolType) -> u64 {
    match p {
        ProtocolType::StableLending { .. } => STABLE_LENDING_MIN_BALANCE,
        ProtocolType::YieldFarming { .. } => YIELD_FARMING_MIN_BALANCE,
        ProtocolType::LiquidStaking { .. } => LIQUID_STAKING_MIN_BALANCE,
    }
}

/// The first rule of `ProtocolType::validate` that `p` breaks, if any.
pub open spec fn protocol_fault(p: ProtocolType) -> Option<RebalancerErrorCode> {
    match p {
        ProtocolType::StableLending { pool_id, reserve_address, utilization } => {
            if pool_id@ == zero_key() {
                Some(RebalancerErrorCode::InvalidPoolId)
            } else if reserve_address@ == zero_key() {
                Some(RebalancerErrorCode::InvalidReserveAddress)
            } else if utilization > 10000 {
                Some(RebalancerErrorCode::InvalidUtilization)
            } else {
                None
            }
        },
        ProtocolType::YieldFarming {
            pair_id,
            token_a_mint,
            token_b_mint,
            fee_tier,
            reward_multiplier,
        } => {
            if pair_id@ == zero_key() {
                Some(RebalancerErrorCode::InvalidPairId)
            } else if token_a_mint@ == zero_key() || token_b_mint@ == zero_key() {
                Some(RebalancerErrorCode::InvalidTokenMint)
            } else if token_a_mint@ == token_b_mint@ {
                Some(RebalancerErrorCode::DuplicateTokenMints)
            } else if reward_multiplier < 1 || reward_multiplier > 10 {
                Some(RebalancerErrorCode::InvalidRewardMultiplier)
            } else if fee_tier > 1000 {
                Some(RebalancerErrorCode::InvalidFeeTier)
            } else {
                None
            }
        },
        ProtocolType::LiquidStaking { validator_id, stake_pool, unstake_delay, commission } => {
            if validator_id@ == zero_key() {
                Some(RebalancerErrorCode::InvalidValidatorId)
            } else if stake_pool@ == zero_key() {
                Some(RebalancerErrorCode::InvalidStakePool)
            } else if commission > 1000 {
                Some(RebalancerErrorCode::InvalidCommission)
            } else if unstake_delay > 50 {
                Some(RebalancerErrorCode::InvalidUnstakeDelay)
            } else {
                None
            }
        },
    }
}

impl Strategy {
    pub fn validate_yield_rate(rate: u64) -> (r: Result<(), RebalancerErrorCode>)
        ensures
            r is Ok <==> rate <= MAX_YIELD_RATE_BPS,
            r is Err ==> r == Err::<(), _>(RebalancerErrorCode::ExcessiveYieldRate),
    {
        if rate <= MAX_YIELD_RATE_BPS {
            Ok(())
        } else {
            Err(RebalancerErrorCode::ExcessiveYieldRate)
        }
    }

    /// A balance is accepted only while it stays below a thousandth of the `u64` range.
    pub fn validate_balance_update(new_balance: u64) -> (r: Result<(), RebalancerErrorCode>)
        ensures
            r is Ok <==> new_balance < u64::MAX / 1000,
            r is Err ==> r == Err::<(), _>(RebalancerErrorCode::BalanceOverflow),
    {
        if new_balance < u64::MAX / 1000 {
            Ok(())
        } else {
            Err(RebalancerErrorCode::BalanceOverflow)
        }
    }

    pub fn validate_volatility_score(score: u32) -> (r: Result<(), RebalancerErrorCode>)
        ensures
            r is Ok <==> score <= MAX_VOLATILITY_BPS,
            r is Err ==> r == Err::<(), _>(RebalancerErrorCode::InvalidVolatilityScore),
    {
        if score <= MAX_VOLATILITY_BPS {
            Ok(())
        } else {
            Err(RebalancerErrorCode::InvalidVolatilityScore)
        }
    }
}

impl ProtocolType {
    /// Checks the protocol-specific parameters; the first broken rule decides the error.
    pub fn validate(&self) -> (r: Result<(), RebalancerErrorCode>)
        ensures
            r is Ok <==> protocol_fault(*self) is None,
            r is Err ==> r->Err_0 == protocol_fault(*self)->Some_0,
    {
        match self {
            ProtocolType::StableLending { pool_id, reserve_address, utilization } => {
                if pool_id.is_default() {
                    return Err(RebalancerErrorCode::InvalidPoolId);
                }
                if reserve_address.is_default() {
                    return Err(RebalancerErrorCode::InvalidReserveAddress);
                }
                if *utilization > 10000 {
                    return Err(RebalancerErrorCode::InvalidUtilization);
                }
                Ok(())
            },
            ProtocolType::YieldFarming {
                pair_id,
                token_a_mint,
                token_b_mint,
                fee_tier,
                reward_multiplier,
            } => {
                if pair_id.is_default() {
                    return Err(RebalancerErrorCode::InvalidPairId);
                }
                if token_a_mint.is_default() || token_b_mint.is_default() {
                    return Err(RebalancerErrorCode::InvalidTokenMint);
                }
                if *token_a_mint == *token_b_mint {
                    return Err(RebalancerErrorCode::DuplicateTokenMints);
                }
                if *reward_multiplier < 1 || *reward_multiplier > 10 {
                    return Err(RebalancerErrorCode::InvalidRewardMultiplier);
                }
                if *fee_tier > 1000 {
                    return Err(RebalancerErrorCode::InvalidFeeTier);
                }
                Ok(())
            },
            ProtocolType::LiquidStaking { validator_id, stake_pool, unstake_delay, commission } => {
                if validator_id.is_default() {
                    return Err(RebalancerErrorCode::InvalidValidatorId);
                }
                if stake_pool.is_default() {
                    return Err(RebalancerErrorCode::InvalidStakePool);
                }
                if *commission > 1000 {
                    return Err(RebalancerErrorCode::InvalidCommission);
                }
                if *unstake_delay > 50 {
                    return Err(RebalancerErrorCode::InvalidUnstakeDelay);
                }
                Ok(())
            },
        }
    }

    pub fn get_protocol_name(&self) -> (r: &'static str)
        ensures
            self is StableLending ==> r@ == "Stable Lending"@,
            self is YieldFarming ==> r@ == "Yield Farming"@,
            self is LiquidStaking ==> r@ == "Liquid Staking"@,
    {
        proof {
            reveal_strlit("Stable Lending");
            reveal_strlit("Yield Farming");
            reveal_strlit("Liquid Staking");
        }
        match self {
            ProtocolType::StableLending { .. } => "Stable Lending",
            ProtocolType::YieldFarming { .. } => "Yield Farming",
            ProtocolType::LiquidStaking { .. } => "Liquid Staking",
        }
    }

    /// The token accounts a position of this protocol is expected to hold.
    pub fn get_expected_tokens(&self) -> (r: Vec<Pubkey>)
        ensures
            r@ == match *self {
                ProtocolType::StableLending { reserve_address, .. } => seq![reserve_address],
                ProtocolType::YieldFarming { token_a_mint, token_b_mint, .. } => seq![
                    token_a_mint,
                    token_b_mint,
                ],
                ProtocolType::LiquidStaking { stake_pool, .. } => seq![stake_pool],
            },
    {
        let mut r: Vec<Pubkey> = Vec::new();
        match self {
            ProtocolType::StableLending { reserve_address, .. } => {
                r.push(*reserve_address);
            },
            ProtocolType::YieldFarming { token_a_mint, token_b_mint, .. } => {
                r.push(*token_a_mint);
                r.push(*token_b_mint);
            },
            ProtocolType::LiquidStaking { stake_pool, .. } => {
                r.push(*stake_pool);
            },
        }
        proof {
            assert(r@ =~= match *self {
                ProtocolType::StableLending { reserve_address, .. } => seq![reserve_address],
                ProtocolType::YieldFarming { token_a_mint, token_b_mint, .. } => seq![
                    token_a_mint,
                    token_b_mint,
                ],
                ProtocolType::LiquidStaking { stake_pool, .. } => seq![stake_pool],
            });
        }
        r
    }

    /// The smallest balance a position of this protocol may hold.
    pub fn min_balance(&self) -> (r: u64)
        ensures
            r == protocol_min_balance(*self),
    {
        match self {
            ProtocolType::StableLending { .. } => STABLE_LENDING_MIN_BALANCE,
            ProtocolType::YieldFarming { .. } => YIELD_FARMING_MIN_BALANCE,
            ProtocolType::LiquidStaking { .. } => LIQUID_STAKING_MIN_BALANCE,
        }
    }

    pub fn validate_balance_constraints(&self, balance: u64) -> (r: Result<(), RebalancerErrorCode>)
        ensures
            r is Ok <==> balance >= protocol_min_balance(*self),
            r is Err ==> r == Err::<(), _>(RebalancerErrorCode::InsufficientBalance),
    {
        if balance >= self.min_balance() {
            Ok(())
        } else {
            Err(RebalancerErrorCode::InsufficientBalance)
        }
    }
}

} // verus!
