use vstd::prelude::*;

use crate::types::TradeStatus;

verus! {

/// How much of a market order for `amount` the pool fills: all of it when
/// the liquidity covers it, otherwise the liquidity there is.
pub open spec fn market_fill(amount: i128, liquidity: i128) -> i128 {
    if liquidity <= 0 {
        0
    } else if liquidity < amount {
        liquidity
    } else {
        amount
    }
}

/// Whether a limit order at `limit_price` crosses the market.
pub open spec fn limit_crosses(market_price: Option<i128>, limit_price: i128) -> bool {
    match market_price {
        Some(p) => p <= limit_price,
        None => false,
    }
}

/// The status a trade of `requested` ends in after `executed` was filled.
pub open spec fn status_of(requested: i128, executed: i128) -> TradeStatus {
    if executed <= 0 {
        TradeStatus::Failed
    } else if executed < requested {
        TradeStatus::PartiallyFilled
    } else {
        TradeStatus::Filled
    }
}

/// Fills a market order against the pool's liquidity at `price`.
/// Returns the filled amount and the price paid (0 when nothing filled).
pub fn execute_market_order(amount: i128, liquidity: i128, price: i128) -> (r: (i128, i128))
    ensures
        r.0 == market_fill(amount, liquidity),
        r.1 == (if r.0 > 0 { price } else { 0 }),
{
    let executed = if liquidity <= 0 {
        0
    } else if liquidity < amount {
        liquidity
    } else {
        amount
    };
    if executed > 0 {
        (executed, price)
    } else {
        (executed, 0)
    }
}

/// Fills a limit order at `limit_price`: completely when the market price
/// is known and at or below the limit, not at all otherwise.
pub fn execute_limit_order(amount: i128, market_price: Option<i128>, limit_price: i128) -> (r: (i128, i128))
    ensures
        r == (if limit_crosses(market_price, limit_price) { (amount, limit_price) } else { (0i128, 0i128) }),
{
    match market_price {
        Some(p) => {
            if p <= limit_price {
                (amount, limit_price)
            } else {
                (0, 0)
            }
        },
        None => (0, 0),
    }
}

/// Classifies a trade by how much of it was filled.
pub fn trade_status(requested: i128, executed: i128) -> (s: TradeStatus)
    ensures
        s == status_of(requested, executed),
{
    if executed <= 0 {
        TradeStatus::Failed
    } else if executed < requested {
        TradeStatus::PartiallyFilled
    } else {
        TradeStatus::Filled
    }
}

} // verus!
