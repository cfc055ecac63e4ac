use vstd::prelude::*;

use crate::auth::{after_grant, after_revoke, grant_fits, is_trade_authorized, trade_authorized};
use crate::env::{Env, EnvView};
use crate::errors::AutoTradeError;
use crate::risk::{
    after_fill, check_position_limit, fill_fits, fill_in_range, get_risk_config, get_trades_today,
    portfolio_fits, portfolio_value, position_in, position_limit_fits, position_limit_in_range,
    position_value, positions_map, record_fill, risk_config_of, sum_values, trades_today,
    valuation_price, valuation_price_of, within_position_limit, Positions,
};
use crate::sdex::{
    execute_limit_order, execute_market_order, limit_crosses, market_fill, status_of, trade_status,
};
use crate::types::{
    fits_i128, tdiv, AssetHolding, AuthConfig, OrderType, Portfolio, Position, RiskConfig, Signal,
    Trade, TradeResult, UserId, SECONDS_PER_DAY,
};

verus! {

/// The auto-trading contract's entry points.
pub struct AutoTradeContract;

// ---------------------------------------------------------------------
// What a trade request does
// ---------------------------------------------------------------------

/// Value of a trade of `amount` at `price` (prices use 100 as par).
pub open spec fn trade_value(amount: i128, price: i128) -> int {
    tdiv(amount * price, 100)
}

/// Whether a request passes the checks that come before the risk limits:
/// a positive amount, a stored and unexpired signal, an authorized user
/// and a balance that covers the amount.
pub open spec fn passes_basic_checks(v: EnvView, user: UserId, signal_id: u64, amount: i128) -> bool {
    &&& amount > 0
    &&& v.signal(signal_id) is Some
    &&& v.now <= v.signal(signal_id).unwrap().expiry
    &&& trade_authorized(v, user, amount)
    &&& v.balance(user) >= amount
}

/// The error a trade request is refused with, checks taken in order; `None`
/// when it is accepted.
pub open spec fn trade_refusal(v: EnvView, user: UserId, signal_id: u64, amount: i128) -> Option<
    AutoTradeError,
> {
    if amount <= 0 {
        Some(AutoTradeError::InvalidAmount)
    } else if v.signal(signal_id) is None {
        Some(AutoTradeError::SignalNotFound)
    } else if v.now > v.signal(signal_id).unwrap().expiry {
        Some(AutoTradeError::SignalExpired)
    } else if !trade_authorized(v, user, amount) {
        Some(AutoTradeError::Unauthorized)
    } else if v.balance(user) < amount {
        Some(AutoTradeError::InsufficientBalance)
    } else if trades_today(v, user) >= risk_config_of(v, user).daily_trade_limit {
        Some(AutoTradeError::DailyTradeLimitExceeded)
    } else if !within_position_limit(
        v,
        user,
        v.signal(signal_id).unwrap().base_asset,
        trade_value(amount, v.signal(signal_id).unwrap().price),
        risk_config_of(v, user).max_position_pct,
    ) {
        Some(AutoTradeError::PositionLimitExceeded)
    } else {
        None
    }
}

/// Amount filled and price paid for an accepted order on `signal`.
pub open spec fn fill_of(v: EnvView, signal_id: u64, signal: Signal, order: OrderType, amount: i128) -> (
    i128,
    i128,
) {
    match order {
        OrderType::Market => {
            let e = market_fill(amount, v.liquidity_of(signal_id));
            (e, if e > 0 { signal.price } else { 0 })
        },
        OrderType::Limit => if limit_crosses(v.market_price(signal_id), signal.price) {
            (amount, signal.price)
        } else {
            (0, 0)
        },
    }
}

/// The trade recorded for an accepted request.
pub open spec fn trade_record(v: EnvView, signal_id: u64, order: OrderType, amount: i128) -> Trade {
    let f = fill_of(v, signal_id, v.signal(signal_id).unwrap(), order, amount);
    Trade {
        signal_id,
        order_type: order,
        requested_amount: amount,
        executed_amount: f.0,
        executed_price: f.1,
        timestamp: v.now,
        status: status_of(amount, f.0),
    }
}

/// The ledger after recording trade `t` of `user` in `asset`: the trade is
/// appended to the user's log and, when something was filled, the position
/// and the day's trade count are updated.
pub open spec fn apply_trade(v: EnvView, user: UserId, asset: u32, t: Trade) -> EnvView {
    let logged = EnvView { histories: v.histories.insert(user, v.history(user).push(t)), ..v };
    if t.executed_amount > 0 {
        after_fill(logged, user, asset, t.executed_amount, t.executed_price)
    } else {
        logged
    }
}

/// Whether the arithmetic of a trade request stays within `i128`, for the
/// checks it reaches.
pub open spec fn trade_fits(v: EnvView, user: UserId, signal_id: u64, order: OrderType, amount: i128) -> bool {
    passes_basic_checks(v, user, signal_id, amount) && trades_today(v, user) < risk_config_of(
        v,
        user,
    ).daily_trade_limit ==> {
        let s = v.signal(signal_id).unwrap();
        let cfg = risk_config_of(v, user);
        let f = fill_of(v, signal_id, s, order, amount);
        &&& fits_i128(amount * s.price)
        &&& position_limit_fits(
            v,
            user,
            s.base_asset,
            trade_value(amount, s.price),
            cfg.max_position_pct,
        )
        &&& within_position_limit(v, user, s.base_asset, trade_value(amount, s.price), cfg.max_position_pct)
            ==> fill_fits(position_in(v.positions_of(user), s.base_asset), f.0, f.1)
    }
}

/// The latest trade of a log on `signal_id`.
pub open spec fn latest_trade(h: Seq<Trade>, signal_id: u64) -> Option<Trade>
    decreases h.len(),
{
    if h.len() == 0 {
        None
    } else if h.last().signal_id == signal_id {
        Some(h.last())
    } else {
        latest_trade(h.drop_last(), signal_id)
    }
}

/// The part of a log that a page starting at `offset` of at most `limit`
/// entries shows.
pub open spec fn history_page(h: Seq<Trade>, offset: u32, limit: u32) -> Seq<Trade> {
    let lo = if offset <= h.len() { offset as int } else { h.len() as int };
    let hi = if offset + limit <= h.len() { offset + limit } else { h.len() as int };
    h.subrange(lo, hi)
}

/// One line of the portfolio report for position `p`.
pub open spec fn holding_of(v: EnvView, p: Position) -> AssetHolding {
    AssetHolding {
        asset_id: p.asset_id,
        amount: p.amount,
        entry_price: p.entry_price,
        current_price: valuation_price(v, p),
        value: position_value(v, p) as i128,
    }
}

/// Whether the arithmetic of a trade request stays within `i128`
/// (`trade_fits`); a request for which this is false would overflow.
pub fn trade_in_range(env: &Env, user: UserId, signal_id: u64, order_type: OrderType, amount: i128) -> (b: bool)
    ensures
        b == trade_fits(env@, user, signal_id, order_type, amount),
{
    let signal = match env.signal(signal_id) {
        Some(s) => s,
        None => {
            return true;
        },
    };
    if amount <= 0 || env.timestamp() > signal.expiry || !is_trade_authorized(env, user, amount)
        || env.balance(user) < amount {
        return true;
    }
    let config = get_risk_config(env, user);
    if get_trades_today(env, user) >= config.daily_trade_limit {
        return true;
    }
    let value = match amount.checked_mul(signal.price) {
        Some(x) => x / 100,
        None => {
            return false;
        },
    };
    if !position_limit_in_range(env, user, signal.base_asset, value, config.max_position_pct) {
        return false;
    }
    if !check_position_limit(env, user, signal.base_asset, value, config.max_position_pct) {
        return true;
    }
    let (executed, price) = match order_type {
        OrderType::Market => execute_market_order(amount, env.liquidity(signal_id), signal.price),
        OrderType::Limit => execute_limit_order(amount, env.market_price(signal_id), signal.price),
    };
    fill_in_range(env, user, signal.base_asset, executed, price)
}

/// Sum of the values of a portfolio report's lines.
pub open spec fn sum_holdings(hs: Seq<AssetHolding>) -> int
    decreases hs.len(),
{
    if hs.len() == 0 {
        0
    } else {
        sum_holdings(hs.drop_last()) + hs.last().value
    }
}

impl AutoTradeContract {
    /// Executes an order of `amount` for `user` on signal `signal_id`.
    ///
    /// The request is refused, leaving the ledger unchanged, when the amount
    /// is not positive, the signal is unknown or expired, the user has not
    /// authorized the trade, the balance does not cover it, the user's daily
    /// trade limit is used up, or the trade would push the signal's asset
    /// over the user's position limit. Otherwise the order is filled as far
    /// as the market allows, logged, and applied to the user's position.
    pub fn execute_trade(
        env: &mut Env,
        user: UserId,
        signal_id: u64,
        order_type: OrderType,
        amount: i128,
    ) -> (r: Result<TradeResult, AutoTradeError>)
        requires
            trade_fits(old(env)@, user, signal_id, order_type, amount),
        ensures
            match trade_refusal(old(env)@, user, signal_id, amount) {
                Some(e) => r == Err::<TradeResult, AutoTradeError>(e) && final(env)@ == old(env)@,
                None => {
                    let t = trade_record(old(env)@, signal_id, order_type, amount);
                    &&& r == Ok::<TradeResult, AutoTradeError>(TradeResult { trade: t })
                    &&& final(env)@ == apply_trade(
                        old(env)@,
                        user,
                        old(env)@.signal(signal_id).unwrap().base_asset,
                        t,
                    )
                },
            },
    {
            let ghost v = env@;
        if amount <= 0 {
            return Err(AutoTradeError::InvalidAmount);
        }
        let signal = match env.signal(signal_id) {
            Some(s) => s,
            None => {
                return Err(AutoTradeError::SignalNotFound);
            },
        };
        if env.timestamp() > signal.expiry {
            return Err(AutoTradeError::SignalExpired);
        }
        if !is_trade_authorized(env, user, amount) {
            return Err(AutoTradeError::Unauthorized);
        }
        if env.balance(user) < amount {
            return Err(AutoTradeError::InsufficientBalance);
        }
        let config = get_risk_config(env, user);
        let today = get_trades_today(env, user);
        if today >= config.daily_trade_limit {
            return Err(AutoTradeError::DailyTradeLimitExceeded);
        }
        let value = amount * signal.price / 100;
        if !check_position_limit(env, user, signal.base_asset, value, config.max_position_pct) {
            return Err(AutoTradeError::PositionLimitExceeded);
        }
        let (executed, price) = match order_type {
            OrderType::Market => execute_market_order(amount, env.liquidity(signal_id), signal.price),
            OrderType::Limit => execute_limit_order(amount, env.market_price(signal_id), signal.price),
        };
        let trade = Trade {
            signal_id,
            order_type,
            requested_amount: amount,
            executed_amount: executed,
            executed_price: price,
            timestamp: env.timestamp(),
            status: trade_status(amount, executed),
        };
        assert(trade == trade_record(v, signal_id, order_type, amount));
        env.push_trade(user, trade);
        if executed > 0 {
            record_fill(env, user, signal.base_asset, executed, price, today);
        }
        Ok(TradeResult { trade })
    }

    /// The latest trade of `user` on `signal_id`, if any.
    pub fn get_trade(env: &Env, user: UserId, signal_id: u64) -> (r: Option<Trade>)
        ensures
            r == latest_trade(env@.history(user), signal_id),
    {
        let h = env.history(user);
        let mut i = h.len();
        assert(h@.take(i as int) =~= h@);
        while i > 0
            invariant
                i <= h@.len(),
                h@ == env@.history(user),
                latest_trade(h@, signal_id) == latest_trade(h@.take(i as int), signal_id),
            decreases i,
        {
            assert(h@.take(i as int).drop_last() =~= h@.take(i - 1));
            assert(h@.take(i as int).last() == h@[i - 1]);
            if h[i - 1].signal_id == signal_id {
                return Some(h[i - 1]);
            }
            i = i - 1;
        }
        None
    }

    /// A page of `user`'s trade log, oldest first: at most `limit` trades
    /// starting at position `offset`.
    pub fn get_trade_history(env: &Env, user: UserId, offset: u32, limit: u32) -> (r: Vec<Trade>)
        ensures
            r@ == history_page(env@.history(user), offset, limit),
    {
        let h = env.history(user);
        let n = h.len();
        let lo: usize = if (offset as usize) <= n { offset as usize } else { n };
        let end: u64 = offset as u64 + limit as u64;
        let hi: usize = if end <= n as u64 { end as usize } else { n };
        let mut page: Vec<Trade> = Vec::new();
        let mut i = lo;
        while i < hi
            invariant
                lo <= i <= hi,
                hi <= h@.len(),
                page@ == h@.subrange(lo as int, i as int),
            decreases hi - i,
        {
            page.push(h[i]);
            i = i + 1;
        }
        page
    }

    /// All of `user`'s positions.
    pub fn get_user_positions(env: &Env, user: UserId) -> (r: Positions)
        ensures
            r@ == positions_map(env@.positions_of(user)),
    {
            crate::risk::get_user_positions(env, user)
    }

    /// `user`'s holdings valued at current prices, in the order they were
    /// first bought.
    pub fn get_portfolio(env: &Env, user: UserId) -> (r: Portfolio)
        requires
            portfolio_fits(env@, user),
        ensures
            r.assets@.len() == env@.positions_of(user).len(),
            forall|i: int|
                0 <= i < r.assets@.len() ==> #[trigger] r.assets@[i] == holding_of(
                    env@,
                    env@.positions_of(user)[i],
                ),
            r.total_value == portfolio_value(env@, user),
            r.total_value == sum_holdings(r.assets@),
    {
        let ps = env.positions(user);
        let mut assets: Vec<AssetHolding> = Vec::new();
        let mut total: i128 = 0;
        let mut i: usize = 0;
        assert(ps@.take(0) =~= Seq::<Position>::empty());
        while i < ps.len()
            invariant
                i <= ps@.len(),
                ps@ == env@.positions_of(user),
                portfolio_fits(env@, user),
                assets@.len() == i,
                forall|j: int| 0 <= j < i ==> #[trigger] assets@[j] == holding_of(env@, ps@[j]),
                total == sum_values(env@, ps@.take(i as int)),
                total == sum_holdings(assets@),
            decreases ps@.len() - i,
        {
            let p = ps[i];
            let price = valuation_price_of(env, &p);
            let ghost before = assets@;
            assert(fits_i128(ps@[i as int].amount * valuation_price(env@, ps@[i as int])));
            let value = p.amount * price / 100;
            assert(ps@.take(i + 1).drop_last() =~= ps@.take(i as int));
            assert(fits_i128(sum_values(env@, ps@.take(i + 1))));
            assets.push(
                AssetHolding {
                    asset_id: p.asset_id,
                    amount: p.amount,
                    entry_price: p.entry_price,
                    current_price: price,
                    value,
                },
            );
            assert(assets@.drop_last() =~= before);
            total = total + value;
            i = i + 1;
        }
        assert(ps@.take(ps@.len() as int) =~= ps@);
        Portfolio { assets, total_value: total }
    }

    /// Lets the contract trade for `user` up to `max_trade_amount` per trade
    /// for `duration_days` days from now, replacing any earlier grant.
    /// Refused with `InvalidAmount`, leaving the ledger unchanged, when the
    /// amount is not positive.
    pub fn grant_authorization(
        env: &mut Env,
        user: UserId,
        max_trade_amount: i128,
        duration_days: u32,
    ) -> (r: Result<(), AutoTradeError>)
        requires
            grant_fits(old(env)@.now, duration_days),
        ensures
            max_trade_amount <= 0 ==> r == Err::<(), AutoTradeError>(AutoTradeError::InvalidAmount)
                && final(env)@ == old(env)@,
            max_trade_amount > 0 ==> r == Ok::<(), AutoTradeError>(()) && final(env)@ == after_grant(
                old(env)@,
                user,
                max_trade_amount,
                duration_days,
            ),
    {
        if max_trade_amount <= 0 {
            return Err(AutoTradeError::InvalidAmount);
        }
        let expires_at = env.timestamp() + (duration_days as u64) * SECONDS_PER_DAY;
        env.put_auth_config(user, AuthConfig { authorized: true, max_trade_amount, expires_at });
        Ok(())
    }

    /// Withdraws `user`'s grant; afterwards the contract holds none for them.
    pub fn revoke_authorization(env: &mut Env, user: UserId) -> (r: Result<(), AutoTradeError>)
        ensures
            r == Ok::<(), AutoTradeError>(()),
            final(env)@ == after_revoke(old(env)@, user),
    {
        env.remove_auth_config(user);
        Ok(())
    }

    /// `user`'s current grant, if any.
    pub fn get_auth_config(env: &Env, user: UserId) -> (r: Option<AuthConfig>)
        ensures
            r == env@.auth_config(user),
    {
        env.auth_config(user)
    }

    /// The risk limits that apply to `user`.
    pub fn get_risk_config(env: &Env, user: UserId) -> (c: RiskConfig)
        ensures
            c == risk_config_of(env@, user),
    {
        get_risk_config(env, user)
    }

    /// Sets `user`'s own risk limits.
    pub fn set_risk_config(env: &mut Env, user: UserId, config: RiskConfig)
        ensures
            final(env)@ == (EnvView {
                risk_configs: old(env)@.risk_configs.insert(user, config),
                ..old(env)@
            }),
    {
        crate::risk::set_risk_config(env, user, &config);
    }
}

} // verus!
