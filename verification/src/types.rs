use vstd::prelude::*;

verus! {

/// Identifier of an account that trades through the contract.
pub type UserId = u64;

/// A trading signal: the price at which its asset should be bought, the
/// ledger time after which it may no longer be acted on, and the asset.
#[derive(Clone, Copy, Debug, PartialEq, Eq, Structural)]
pub struct Signal {
    pub signal_id: u64,
    pub price: i128,
    pub expiry: u64,
    pub base_asset: u32,
}

/// How an order meets the market.
#[derive(Clone, Copy, Debug, PartialEq, Eq, Structural)]
pub enum OrderType {
    /// Fill as much as the available liquidity allows, at the signal price.
    Market,
    /// Fill completely at the signal price, but only when the market price
    /// is at or below it.
    Limit,
}

/// Outcome of an order.
#[derive(Clone, Copy, Debug, PartialEq, Eq, Structural)]
pub enum TradeStatus {
    Filled,
    PartiallyFilled,
    Failed,
}

/// One executed (or attempted) trade of a user on a signal.
#[derive(Clone, Copy, Debug, PartialEq, Eq, Structural)]
pub struct Trade {
    pub signal_id: u64,
    pub order_type: OrderType,
    pub requested_amount: i128,
    pub executed_amount: i128,
    pub executed_price: i128,
    pub timestamp: u64,
    pub status: TradeStatus,
}

/// What `execute_trade` answers on success.
#[derive(Clone, Copy, Debug, PartialEq, Eq, Structural)]
pub struct TradeResult {
    pub trade: Trade,
}

/// A user's standing permission for the contract to trade on their behalf.
#[derive(Clone, Copy, Debug, PartialEq, Eq, Structural)]
pub struct AuthConfig {
    pub authorized: bool,
    pub max_trade_amount: i128,
    pub expires_at: u64,
}

/// A user's risk limits.
#[derive(Clone, Copy, Debug, PartialEq, Eq, Structural)]
pub struct RiskConfig {
    /// Largest share, in percent, that one asset may take of the portfolio.
    pub max_position_pct: u32,
    /// Number of filled trades allowed per ledger day.
    pub daily_trade_limit: u32,
    /// Loss, in percent of the entry price, at which a position is closed.
    pub stop_loss_pct: u32,
}

/// A user's holding of one asset.
#[derive(Clone, Copy, Debug, PartialEq, Eq, Structural)]
pub struct Position {
    pub asset_id: u32,
    pub amount: i128,
    pub entry_price: i128,
}

/// Number of filled trades of a user on one ledger day.
#[derive(Clone, Copy, Debug, PartialEq, Eq, Structural)]
pub struct DailyActivity {
    pub day: u64,
    pub count: u32,
}

/// One line of a portfolio report.
#[derive(Clone, Copy, Debug, PartialEq, Eq, Structural)]
pub struct AssetHolding {
    pub asset_id: u32,
    pub amount: i128,
    pub entry_price: i128,
    pub current_price: i128,
    pub value: i128,
}

/// A user's holdings with their value at current prices.
pub struct Portfolio {
    pub assets: Vec<AssetHolding>,
    pub total_value: i128,
}

/// Seconds in a ledger day.
pub const SECONDS_PER_DAY: u64 = 86400;

/// Copies a vector of plain values.
pub fn copy_vec<T: Copy>(v: &Vec<T>) -> (res: Vec<T>)
    ensures
        res@ == v@,
{
    let mut res: Vec<T> = Vec::new();
    let mut i: usize = 0;
    while i < v.len()
        invariant
            i <= v.len(),
            res@ == v@.subrange(0, i as int),
        decreases v.len() - i,
    {
        res.push(v[i]);
        i = i + 1;
    }
    assert(res@ =~= v@);
    res
}

/// Truncating integer division, as Rust computes it on signed integers.
pub open spec fn tdiv(a: int, b: int) -> int {
    if a >= 0 {
        a / b
    } else {
        -((-a) / b)
    }
}

/// Whether an integer fits in an `i128`.
pub open spec fn fits_i128(x: int) -> bool {
    i128::MIN <= x <= i128::MAX
}

/// Truncating division by a positive divisor moves toward zero without
/// crossing it.
pub proof fn lemma_tdiv_bounded(x: int, d: int)
    requires
        d >= 1,
    ensures
        x >= 0 ==> 0 <= tdiv(x, d) <= x,
        x < 0 ==> x <= tdiv(x, d) <= 0,
{
    if x >= 0 {
        assert(x / d <= x) by (nonlinear_arith)
            requires
                x >= 0,
                d >= 1,
        ;
        assert(x / d >= 0) by (nonlinear_arith)
            requires
                x >= 0,
                d >= 1,
        ;
    } else {
        let y = -x;
        assert(y / d <= y) by (nonlinear_arith)
            requires
                y >= 0,
                d >= 1,
        ;
        assert(y / d >= 0) by (nonlinear_arith)
            requires
                y >= 0,
                d >= 1,
        ;
    }
}

} // verus!
