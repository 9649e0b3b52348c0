use vstd::prelude::*;

use crate::pubkey::Pubkey;

verus! {

/// Holdings of one strategy position.
#[derive(Clone, Copy, Debug)]
pub struct CapitalPosition {
    pub strategy_id: Pubkey,
    pub token_a_amount: u64,
    /// Zero for a single-asset position.
    pub token_b_amount: u64,
    pub lp_tokens: u64,
    /// LP tokens under the platform's control.
    pub platform_controlled_lp: u64,
    /// Entry price of token A, with 6 decimals.
    pub entry_price_a: u64,
    /// Entry price of token B, with 6 decimals.
    pub entry_price_b: u64,
    pub last_rebalance: i64,
    pub accrued_fees: u64,
    /// Impermanent loss so far; may be negative.
    pub impermanent_loss: i64,
    pub position_type: PositionType,
    pub bump: u8,
}

#[derive(Clone, Copy, Debug, PartialEq, Eq, Structural)]
pub enum PositionType {
    SingleAsset,
    LiquidityPair,
    StakedPosition,
}

} // verus!
