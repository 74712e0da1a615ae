//! Records of what a transition did. A transition returns its record; the
//! host emits it and moves the funds that it names.

use vstd::prelude::*;
use super::state::{Address, TokenSide, TradeType};

verus! {

/// Bilateral liquidity was added.
#[derive(Clone, Copy, Debug)]
pub struct LiquidityAdded {
    pub pool: Address,
    pub user: Address,
    /// Stablecoin paid in.
    pub usdc_amount: u64,
    /// LONG tokens to mint, in display tokens.
    pub long_tokens_out: u64,
    /// SHORT tokens to mint, in display tokens.
    pub short_tokens_out: u64,
    pub new_r_long: u64,
    pub new_r_short: u64,
    pub new_s_long: u64,
    pub new_s_short: u64,
}

/// A pool was created.
#[derive(Clone, Copy, Debug)]
pub struct PoolInitializedEvent {
    pub pool: Address,
    pub content_id: Address,
    pub creator: Address,
    pub f: u16,
    pub beta_num: u16,
    pub beta_den: u16,
    pub timestamp: i64,
}

/// A market was deployed.
#[derive(Clone, Copy, Debug)]
pub struct MarketDeployedEvent {
    pub pool: Address,
    pub deployer: Address,
    pub initial_deposit: u64,
    pub long_allocation: u64,
    pub short_allocation: u64,
    /// Q32.32.
    pub initial_q: u64,
    /// LONG tokens to mint, in display tokens.
    pub long_tokens: u64,
    /// SHORT tokens to mint, in display tokens.
    pub short_tokens: u64,
    pub timestamp: i64,
}

/// A trade went through.
#[derive(Clone, Copy, Debug)]
pub struct TradeEvent {
    pub pool: Address,
    pub trader: Address,
    pub side: TokenSide,
    pub trade_type: TradeType,
    /// Buy: the whole amount paid, skim included. Sell: the net proceeds.
    pub usdc_amount: u64,
    /// Buy: what reached the curve. Sell: the net proceeds.
    pub usdc_to_trade: u64,
    /// The skim that goes to the stake vault.
    pub usdc_to_stake: u64,
    /// Buy: display tokens minted. Sell: atomic tokens burned.
    pub tokens_traded: u64,
    pub s_long_before: u64,
    pub s_short_before: u64,
    pub sqrt_price_long_x96_before: u128,
    pub sqrt_price_short_x96_before: u128,
    pub s_long_after: u64,
    pub s_short_after: u64,
    pub sqrt_price_long_x96_after: u128,
    pub sqrt_price_short_x96_after: u128,
    pub r_long_after: u64,
    pub r_short_after: u64,
    pub vault_balance_after: u64,
    pub timestamp: i64,
}

/// The fees of a trade and who receives them.
#[derive(Clone, Copy, Debug)]
pub struct TradeFeeEvent {
    pub pool: Address,
    pub trader: Address,
    pub side: TokenSide,
    pub trade_type: TradeType,
    pub total_fee_micro_usdc: u64,
    pub creator_fee_micro_usdc: u64,
    pub protocol_fee_micro_usdc: u64,
    pub post_creator: Address,
    pub protocol_treasury: Address,
    pub timestamp: i64,
}

/// An epoch was settled.
#[derive(Clone, Copy, Debug)]
pub struct SettlementEvent {
    pub pool: Address,
    pub settler: Address,
    /// The pool's epoch after the settlement.
    pub epoch: u64,
    /// The score, in millionths.
    pub bd_score: u32,
    /// The market's prediction before the settlement, in millionths.
    pub market_prediction_q: u128,
    /// Factor applied to the LONG side, in millionths.
    pub f_long: u128,
    /// Factor applied to the SHORT side, in millionths.
    pub f_short: u128,
    pub r_long_before: u128,
    pub r_short_before: u128,
    pub r_long_after: u128,
    pub r_short_after: u128,
    pub s_scale_long_before: u128,
    pub s_scale_long_after: u128,
    pub s_scale_short_before: u128,
    pub s_scale_short_after: u128,
    pub timestamp: i64,
}

/// A pool was closed.
#[derive(Clone, Copy, Debug)]
pub struct PoolClosedEvent {
    pub pool: Address,
    pub creator: Address,
    /// What the vault held, to be paid to the receiver.
    pub remaining_usdc: u64,
    pub timestamp: i64,
}

} // verus!
