//! Decision engine for a two-legged (long and hedge) liquidity strategy: which
//! operations to submit for a pool at the current price, and whether a
//! transaction's gas cost is small enough to admit.
pub mod cost;
pub mod engine;
pub mod intent;
pub mod uint256;

use vstd::prelude::*;

verus! {

/// The operations the engine may ask for. `Invest` and `Divest` are reserved:
/// the rules never emit them.
#[derive(Clone, Copy, Debug, PartialEq, Eq, Structural)]
pub enum Operation {
    LongBuy,
    LongSell,
    HedgeSell,
    HedgeRebuy,
    Rebalance,
    Invest,
    Divest,
}

/// One leg (long or hedge) of a pool's strategy. Prices and capital are
/// unsigned 256-bit integers written in decimal.
#[derive(Clone, Debug)]
pub struct Position {
    pub number: u64,
    pub number_max: u64,
    pub price_min: String,
    pub price_max: String,
    pub active_capital: String,
}

/// The two legs of one pool.
#[derive(Clone, Debug)]
pub struct PoolPosition {
    pub long: Position,
    pub hedge: Position,
}

/// A rational multiplier for gas prices: `numerator / denominator`.
#[derive(Clone, Copy, Debug, PartialEq, Eq, Structural)]
pub struct GasConfig {
    pub multiplier_numerator: u64,
    pub multiplier_denominator: u64,
}

/// Where the chain is reached and which contracts are read.
#[derive(Clone, Debug)]
pub struct EthereumConfig {
    pub rpc_url: String,
    pub intent_nft_address: String,
    pub pools_nft_address: String,
    pub grinder_ai_address: String,
}

} // verus!
