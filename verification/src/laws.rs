use vstd::prelude::*;

use crate::auth::{after_grant, after_revoke, grant_fits, granted_config, trade_authorized};
use crate::contract::{
    apply_trade, holding_of, history_page, latest_trade, passes_basic_checks, trade_record, trade_refusal,
    trade_value,
};
use crate::env::{EnvView, assets_distinct};
use crate::risk::{
    after_fill, asset_value, default_risk_config, fill_fits, lemma_asset_index_unique,
    lemma_set_position, portfolio_value, position_after_fill, position_in, position_value,
    risk_config_of, set_position, stop_loss_hit, stop_loss_triggered, sum_values, trades_today,
    valuation_price, within_position_limit,
};
use crate::strategies::dca::{
    missed_periods, acquired_for, after_purchase, interval_of, purchase_due, repeat_purchase, strategy_consistent,
    sum_acquired, sum_invested, DCAPurchase, DCAStatus, DCAStrategyView, PRECISION,
};
use crate::types::{fits_i128, lemma_tdiv_bounded, Position, RiskConfig, Trade, TradeStatus, UserId};

verus! {

// ---------------------------------------------------------------------
// Authorization
// ---------------------------------------------------------------------

/// After a grant, the user's permission is exactly the one granted; other
/// users' permissions are untouched.
pub proof fn law_grant_then_get(v: EnvView, user: UserId, max_trade_amount: i128, duration_days: u32)
    ensures
        after_grant(v, user, max_trade_amount, duration_days).auth_config(user) == Some(
            granted_config(v.now, max_trade_amount, duration_days),
        ),
        forall|u: UserId|
            u != user ==> #[trigger] after_grant(v, user, max_trade_amount, duration_days).auth_config(u)
                == v.auth_config(u),
{
}

/// Of two grants, the later one applies.
pub proof fn law_latest_grant_applies(
    v: EnvView,
    user: UserId,
    first_amount: i128,
    first_days: u32,
    second_amount: i128,
    second_days: u32,
)
    ensures
        after_grant(after_grant(v, user, first_amount, first_days), user, second_amount, second_days).auth_config(
            user,
        ) == Some(granted_config(v.now, second_amount, second_days)),
{
}

/// After a revocation the user holds no permission.
pub proof fn law_revoke_then_get(v: EnvView, user: UserId)
    ensures
        after_revoke(v, user).auth_config(user) is None,
{
}

/// A user without the unlimited permission may not trade any amount once
/// their grant is revoked.
pub proof fn law_revoked_blocks_trades(v: EnvView, user: UserId, amount: i128)
    requires
        !v.approved.contains(user),
    ensures
        !trade_authorized(after_revoke(v, user), user, amount),
{
}

/// Right after a grant, a user without the unlimited permission may trade
/// exactly the amounts up to the granted maximum.
pub proof fn law_grant_caps_trades(
    v: EnvView,
    user: UserId,
    max_trade_amount: i128,
    duration_days: u32,
    amount: i128,
)
    requires
        !v.approved.contains(user),
        grant_fits(v.now, duration_days),
    ensures
        trade_authorized(after_grant(v, user, max_trade_amount, duration_days), user, amount)
            <==> amount <= max_trade_amount,
{
}

/// Once the ledger time is past a grant's expiry, the grant allows no
/// trade.
pub proof fn law_expired_grant_blocks_trades(v: EnvView, user: UserId, amount: i128)
    requires
        !v.approved.contains(user),
        v.auth_config(user) matches Some(c) && v.now > c.expires_at,
    ensures
        !trade_authorized(v, user, amount),
{
}

// ---------------------------------------------------------------------
// Risk configuration and positions
// ---------------------------------------------------------------------

/// The limits a user set are the limits that apply to them.
pub proof fn law_risk_config_roundtrip(v: EnvView, user: UserId, config: RiskConfig)
    ensures
        risk_config_of(EnvView { risk_configs: v.risk_configs.insert(user, config), ..v }, user)
            == config,
{
}

/// A user who never set limits gets the default ones.
pub proof fn law_default_risk_config(v: EnvView, user: UserId)
    requires
        !v.risk_configs.contains_key(user),
    ensures
        risk_config_of(v, user) == default_risk_config(),
{
}

/// Reading a position after writing it gives the written position; the
/// positions in other assets are unchanged.
pub proof fn law_position_write_read(ps: Seq<Position>, p: Position, asset: u32)
    requires
        assets_distinct(ps),
    ensures
        position_in(set_position(ps, p), p.asset_id) == Some(p),
        asset != p.asset_id ==> position_in(set_position(ps, p), asset) == position_in(ps, asset),
        assets_distinct(set_position(ps, p)),
{
    lemma_set_position(ps, p, p.asset_id);
    lemma_set_position(ps, p, asset);
}

/// A user whose holdings are worth nothing passes the position limit for
/// any trade, so a first trade is never refused for concentration.
pub proof fn law_first_trade_within_position_limit(
    v: EnvView,
    user: UserId,
    asset: u32,
    trade_value: int,
    max_pct: u32,
)
    requires
        v.positions_of(user).len() == 0,
    ensures
        within_position_limit(v, user, asset, trade_value, max_pct),
{
}

/// A stop loss that triggers at some price triggers at every lower price.
pub proof fn law_stop_loss_monotone(v: EnvView, user: UserId, asset: u32, price: i128, lower: i128, pct: u32)
    requires
        stop_loss_triggered(v, user, asset, price, pct),
        lower <= price,
    ensures
        stop_loss_triggered(v, user, asset, lower, pct),
{
}

/// A stop loss never triggers at or above the entry price, nor for an asset
/// not held.
pub proof fn law_stop_loss_needs_a_loss(v: EnvView, user: UserId, asset: u32, price: i128, pct: u32)
    ensures
        stop_loss_triggered(v, user, asset, price, pct) ==> (position_in(v.positions_of(user), asset)
            matches Some(p) && price < p.entry_price),
{
}

// ---------------------------------------------------------------------
// Trades
// ---------------------------------------------------------------------

/// An accepted trade passed every check: positive amount, live signal,
/// authorization, balance, daily limit and position limit.
pub proof fn law_accepted_trade_was_checked(v: EnvView, user: UserId, signal_id: u64, amount: i128)
    requires
        trade_refusal(v, user, signal_id, amount) is None,
    ensures
        passes_basic_checks(v, user, signal_id, amount),
        trades_today(v, user) < risk_config_of(v, user).daily_trade_limit,
        within_position_limit(
            v,
            user,
            v.signal(signal_id).unwrap().base_asset,
            trade_value(amount, v.signal(signal_id).unwrap().price),
            risk_config_of(v, user).max_position_pct,
        ),
{
}

/// An accepted order fills between nothing and the requested amount, at
/// the signal price when anything fills, and its status says how much.
pub proof fn law_fill_within_request(
    v: EnvView,
    user: UserId,
    signal_id: u64,
    order: crate::types::OrderType,
    amount: i128,
)
    requires
        trade_refusal(v, user, signal_id, amount) is None,
    ensures
        ({
            let t = trade_record(v, signal_id, order, amount);
            &&& 0 <= t.executed_amount <= amount
            &&& t.requested_amount == amount
            &&& t.executed_amount > 0 ==> t.executed_price == v.signal(signal_id).unwrap().price
            &&& (t.status == TradeStatus::Filled <==> t.executed_amount == amount)
            &&& (t.status == TradeStatus::Failed <==> t.executed_amount == 0)
            &&& (t.status == TradeStatus::PartiallyFilled <==> 0 < t.executed_amount < amount)
        }),
{
}

/// A recorded trade is appended to the user's log and is what reading
/// the user's trade on that signal gives back.
pub proof fn law_trade_readback(v: EnvView, user: UserId, asset: u32, t: Trade)
    ensures
        apply_trade(v, user, asset, t).history(user) == v.history(user).push(t),
        latest_trade(apply_trade(v, user, asset, t).history(user), t.signal_id) == Some(t),
{
    let h = v.history(user).push(t);
    assert(h.last() == t);
}

/// A trade that fills something adds the filled amount to the user's
/// position in the signal's asset, averaging the entry price; the user's
/// other positions stay as they were.
pub proof fn law_fill_adds_to_position(v: EnvView, user: UserId, asset: u32, t: Trade, other: u32)
    requires
        v.wf(),
        t.executed_amount > 0,
    ensures
        position_in(apply_trade(v, user, asset, t).positions_of(user), asset) == Some(
            position_after_fill(
                position_in(v.positions_of(user), asset),
                asset,
                t.executed_amount,
                t.executed_price,
            ),
        ),
        position_in(v.positions_of(user), asset) is None ==> position_after_fill(
            position_in(v.positions_of(user), asset),
            asset,
            t.executed_amount,
            t.executed_price,
        ) == (Position { asset_id: asset, amount: t.executed_amount, entry_price: t.executed_price }),
        other != asset ==> position_in(apply_trade(v, user, asset, t).positions_of(user), other)
            == position_in(v.positions_of(user), other),
{
    v.positions_of_distinct(user);
    let p = position_after_fill(position_in(v.positions_of(user), asset), asset, t.executed_amount, t.executed_price);
    lemma_set_position(v.positions_of(user), p, asset);
    lemma_set_position(v.positions_of(user), p, other);
}

/// Recording a trade of one user changes nothing of another user.
pub proof fn law_trade_isolated(v: EnvView, user: UserId, asset: u32, t: Trade, other: UserId)
    requires
        other != user,
    ensures
        apply_trade(v, user, asset, t).history(other) == v.history(other),
        apply_trade(v, user, asset, t).positions_of(other) == v.positions_of(other),
        apply_trade(v, user, asset, t).activity_of(other) == v.activity_of(other),
        apply_trade(v, user, asset, t).auth_config(other) == v.auth_config(other),
        risk_config_of(apply_trade(v, user, asset, t), other) == risk_config_of(v, other),
{
}

/// Recording a trade leaves signals, permissions, limits and market data
/// as they were.
pub proof fn law_trade_touches_only_the_traders_records(v: EnvView, user: UserId, asset: u32, t: Trade)
    ensures
        apply_trade(v, user, asset, t).now == v.now,
        apply_trade(v, user, asset, t).signals == v.signals,
        apply_trade(v, user, asset, t).approved == v.approved,
        apply_trade(v, user, asset, t).auth_configs == v.auth_configs,
        apply_trade(v, user, asset, t).risk_configs == v.risk_configs,
        apply_trade(v, user, asset, t).balances == v.balances,
        apply_trade(v, user, asset, t).asset_prices == v.asset_prices,
        apply_trade(v, user, asset, t).strategies == v.strategies,
{
}

/// A trade that fills something counts toward the day's limit; one that
/// fills nothing does not.
pub proof fn law_filled_trades_count(v: EnvView, user: UserId, asset: u32, t: Trade)
    requires
        trades_today(v, user) < u32::MAX,
    ensures
        t.executed_amount > 0 ==> trades_today(apply_trade(v, user, asset, t), user) == trades_today(
            v,
            user,
        ) + 1,
        t.executed_amount <= 0 ==> trades_today(apply_trade(v, user, asset, t), user) == trades_today(
            v,
            user,
        ),
{
}

/// A page holds `limit` trades, or fewer when the log ends first.
pub proof fn law_history_page_length(h: Seq<Trade>, offset: u32, limit: u32)
    ensures
        history_page(h, offset, limit).len() == (if offset >= h.len() {
            0
        } else if offset + limit <= h.len() {
            limit as int
        } else {
            h.len() - offset
        }),
        forall|i: int|
            0 <= i < history_page(h, offset, limit).len() ==> #[trigger] history_page(
                h,
                offset,
                limit,
            )[i] == h[offset + i],
{
}

// ---------------------------------------------------------------------
// Dollar-cost averaging
// ---------------------------------------------------------------------

/// An active strategy that has not bought yet is due at once, until its
/// end time.
pub proof fn law_first_purchase_due_immediately(s: DCAStrategyView, now: u64)
    requires
        s.status == DCAStatus::Active,
        s.purchases.len() == 0,
        s.end_time == 0 || now <= s.end_time,
    ensures
        purchase_due(s, now),
{
}

/// A paused strategy is never due.
pub proof fn law_paused_strategy_not_due(s: DCAStrategyView, now: u64)
    requires
        s.status == DCAStatus::Paused,
    ensures
        !purchase_due(s, now),
{
}

/// A strategy is never due after its end time.
pub proof fn law_ended_strategy_not_due(s: DCAStrategyView, now: u64)
    requires
        s.end_time != 0,
        now > s.end_time,
    ensures
        !purchase_due(s, now),
{
}

/// Right after a purchase a strategy is not due again until a full period
/// has passed.
pub proof fn law_not_due_until_next_period(s: DCAStrategyView, now: u64, price: i128, later: u64)
    requires
        interval_of(s.frequency) > 0,
        later < now + interval_of(s.frequency),
    ensures
        !purchase_due(after_purchase(s, now, price), later),
{
}

/// An active strategy that has bought is due again exactly when a period
/// has passed since, within its end time.
pub proof fn law_due_after_period(s: DCAStrategyView, now: u64, price: i128, later: u64)
    requires
        s.status == DCAStatus::Active,
    ensures
        purchase_due(after_purchase(s, now, price), later) <==> (later >= now + interval_of(
            s.frequency,
        ) && (s.end_time == 0 || later <= s.end_time)),
{
}

/// Catching up `k` periods adds exactly `k` purchases to the log, each for
/// the strategy's amount at the catch-up price.
pub proof fn law_catch_up_adds_k_purchases(s: DCAStrategyView, now: u64, price: i128, k: nat)
    ensures
        repeat_purchase(s, now, price, k).purchases.len() == s.purchases.len() + k,
        forall|i: int|
            s.purchases.len() <= i < s.purchases.len() + k ==> (#[trigger] repeat_purchase(
                s,
                now,
                price,
                k,
            ).purchases[i]).amount == s.purchase_amount && repeat_purchase(s, now, price, k).purchases[i].price
                == price,
        forall|i: int|
            0 <= i < s.purchases.len() ==> #[trigger] repeat_purchase(s, now, price, k).purchases[i]
                == s.purchases[i],
    decreases k,
{
    if k > 0 {
        law_catch_up_adds_k_purchases(s, now, price, (k - 1) as nat);
        let prev = repeat_purchase(s, now, price, (k - 1) as nat);
        assert(prev.purchase_amount == s.purchase_amount) by {
            lemma_repeat_keeps_amount(s, now, price, (k - 1) as nat);
        }
    }
}

proof fn lemma_repeat_keeps_amount(s: DCAStrategyView, now: u64, price: i128, k: nat)
    ensures
        repeat_purchase(s, now, price, k).purchase_amount == s.purchase_amount,
    decreases k,
{
    if k > 0 {
        lemma_repeat_keeps_amount(s, now, price, (k - 1) as nat);
    }
}

/// A stored strategy's running totals are the sums over its purchase log.
pub proof fn law_totals_match_log(v: EnvView, id: int)
    requires
        v.wf(),
        0 <= id < v.strategies.len(),
    ensures
        v.strategies[id].total_invested == sum_invested(v.strategies[id].purchases),
        v.strategies[id].total_acquired == sum_acquired(v.strategies[id].purchases),
{
    assert(strategy_consistent(v.strategies[id]));
}

proof fn lemma_sum_bound(ps: Seq<DCAPurchase>, m: int)
    requires
        m > 0,
        forall|i: int|
            0 <= i < ps.len() ==> {
                &&& (#[trigger] ps[i]).price >= m
                &&& ps[i].amount > 0
                &&& ps[i].acquired == acquired_for(ps[i].amount, ps[i].price)
            },
    ensures
        sum_acquired(ps) * m <= sum_invested(ps) * PRECISION,
        sum_acquired(ps) >= 0,
    decreases ps.len(),
{
    if ps.len() > 0 {
        let qs = ps.drop_last();
        assert forall|i: int| 0 <= i < qs.len() implies {
            &&& (#[trigger] qs[i]).price >= m
            &&& qs[i].amount > 0
            &&& qs[i].acquired == acquired_for(qs[i].amount, qs[i].price)
        } by {
            assert(qs[i] == ps[i]);
        }
        lemma_sum_bound(qs, m);
        let last = ps.last();
        assert(ps[ps.len() - 1] == last);
        let x = last.amount * PRECISION;
        let d = last.price as int;
        let q = last.acquired as int;
        assert(q == x / d);
        assert(q >= 0 && q * m <= x) by (nonlinear_arith)
            requires
                q == x / d,
                x > 0,
                d >= m,
                m > 0,
        ;
        let sa = sum_acquired(qs);
        let si = sum_invested(qs);
        assert((sa + q) * m == sa * m + q * m) by (nonlinear_arith);
        assert((si + last.amount) * PRECISION == si * PRECISION + last.amount * PRECISION)
            by (nonlinear_arith);
    }
}

/// If every purchase of a strategy was made at a price of at least `m`,
/// its average entry price is at least `m`.
pub proof fn law_average_at_least_lowest_price(s: DCAStrategyView, m: int)
    requires
        strategy_consistent(s),
        s.total_acquired > 0,
        m > 0,
        forall|i: int| 0 <= i < s.purchases.len() ==> (#[trigger] s.purchases[i]).price >= m,
    ensures
        s.average_entry_price >= m,
{
    lemma_sum_bound(s.purchases, m);
    let inv = s.total_invested as int;
    let acq = s.total_acquired as int;
    assert(acq * m <= inv * PRECISION);
    assert(inv * PRECISION >= 0) by (nonlinear_arith)
        requires
            acq * m <= inv * PRECISION,
            acq > 0,
            m > 0,
    ;
    assert((inv * PRECISION) / acq >= m) by (nonlinear_arith)
        requires
            acq * m <= inv * PRECISION,
            acq > 0,
    ;
}

// ---------------------------------------------------------------------
// Fills, valuation, stop loss, portfolio report, catch-up
// ---------------------------------------------------------------------

/// Buying more of a held long position averages its entry price by amount:
/// the new amount is the old amount plus the fill, and the new entry price
/// is the total cost of both parts spread over the new amount, rounded
/// down (new amount × entry price ≤ cost < new amount × (entry price + 1)).
/// So 100 bought at 100 and then 300 at 200 stand at 175.
pub proof fn law_fill_averages_entry_price(
    v: EnvView,
    user: UserId,
    asset: u32,
    exec: i128,
    price: i128,
)
    requires
        v.wf(),
        exec > 0,
        price >= 0,
        position_in(v.positions_of(user), asset) is Some,
        position_in(v.positions_of(user), asset).unwrap().amount > 0,
        position_in(v.positions_of(user), asset).unwrap().entry_price >= 0,
        fill_fits(position_in(v.positions_of(user), asset), exec, price),
    ensures
        position_in(after_fill(v, user, asset, exec, price).positions_of(user), asset) is Some,
        ({
            let p = position_in(v.positions_of(user), asset).unwrap();
            let q = position_in(after_fill(v, user, asset, exec, price).positions_of(user), asset).unwrap();
            let cost = p.amount * p.entry_price + exec * price;
            &&& q.asset_id == asset
            &&& q.amount == p.amount + exec
            &&& q.amount * q.entry_price <= cost
            &&& cost < q.amount * (q.entry_price + 1)
        }),
{
    let ps = v.positions_of(user);
    let held = position_in(ps, asset);
    let p = held.unwrap();
    v.positions_of_distinct(user);
    let np = position_after_fill(held, asset, exec, price);
    lemma_set_position(ps, np, asset);
    assert(after_fill(v, user, asset, exec, price).positions_of(user) == set_position(ps, np));
    let amt = p.amount + exec;
    let cost = p.amount * p.entry_price + exec * price;
    assert(cost >= 0) by (nonlinear_arith)
        requires
            p.amount > 0,
            p.entry_price >= 0,
            exec > 0,
            price >= 0,
            cost == p.amount * p.entry_price + exec * price,
    ;
    let e = cost / amt;
    vstd::arithmetic::div_mod::lemma_fundamental_div_mod(cost, amt);
    vstd::arithmetic::div_mod::lemma_mod_pos_bound(cost, amt);
    lemma_tdiv_bounded(cost, amt);
    assert(np.entry_price == e);
    assert(amt * (e + 1) == amt * e + amt) by (nonlinear_arith);
}

/// A position is valued at the oracle's price for its asset (its entry
/// price while the oracle has none), and its value is amount times that
/// price in hundredths, rounded toward zero: for a non-negative product,
/// 100 × value ≤ amount × price < 100 × (value + 1).
pub proof fn law_position_value_is_amount_times_price(v: EnvView, p: Position)
    ensures
        valuation_price(v, p) == (match v.asset_price(p.asset_id) {
            Some(q) => q,
            None => p.entry_price,
        }),
        p.amount * valuation_price(v, p) >= 0 ==> {
            &&& 100 * position_value(v, p) <= p.amount * valuation_price(v, p)
            &&& p.amount * valuation_price(v, p) < 100 * (position_value(v, p) + 1)
        },
{
    let x = p.amount * valuation_price(v, p);
    if x >= 0 {
        vstd::arithmetic::div_mod::lemma_fundamental_div_mod(x, 100);
        vstd::arithmetic::div_mod::lemma_mod_pos_bound(x, 100);
    }
}

/// Sum, over a list of held positions, of the value that the position-limit
/// check gives each one's asset.
pub open spec fn held_asset_values(v: EnvView, user: UserId, qs: Seq<Position>) -> int
    decreases qs.len(),
{
    if qs.len() == 0 {
        0
    } else {
        held_asset_values(v, user, qs.drop_last()) + asset_value(v, user, qs.last().asset_id)
    }
}

/// The position-limit check values a held asset exactly as the portfolio
/// total does: each held asset is worth its position's value (amount times
/// price, in hundredths), and these values add up to the portfolio value.
pub proof fn law_asset_values_add_up_to_portfolio(v: EnvView, user: UserId)
    requires
        v.wf(),
    ensures
        forall|i: int|
            0 <= i < v.positions_of(user).len() ==> asset_value(v, user, #[trigger] v.positions_of(user)[i].asset_id)
                == position_value(v, v.positions_of(user)[i]),
        held_asset_values(v, user, v.positions_of(user)) == portfolio_value(v, user),
{
    let ps = v.positions_of(user);
    v.positions_of_distinct(user);
    assert forall|i: int| 0 <= i < ps.len() implies asset_value(v, user, #[trigger] ps[i].asset_id)
        == position_value(v, ps[i]) by {
        lemma_asset_index_unique(ps, i);
    }
    lemma_held_prefix(v, user, ps, ps.len() as int);
    assert(ps.take(ps.len() as int) =~= ps);
}

proof fn lemma_held_prefix(v: EnvView, user: UserId, ps: Seq<Position>, k: int)
    requires
        0 <= k <= ps.len(),
        forall|i: int| 0 <= i < ps.len() ==> asset_value(v, user, #[trigger] ps[i].asset_id)
            == position_value(v, ps[i]),
    ensures
        held_asset_values(v, user, ps.take(k)) == sum_values(v, ps.take(k)),
    decreases k,
{
    if k > 0 {
        lemma_held_prefix(v, user, ps, k - 1);
        assert(ps.take(k).drop_last() =~= ps.take(k - 1));
        assert(ps.take(k).last() == ps[k - 1]);
    }
}

/// A stop loss is a percentage: it triggers exactly when the price has
/// fallen below the entry price by at least `pct` percent of it, so scaling
/// both prices by the same factor never changes whether it triggers
/// (entry 200, current 180 is a 10% loss and does not reach 15%).
pub proof fn law_stop_loss_is_a_percentage(entry: i128, current: i128, pct: u32, k: i128)
    requires
        k > 0,
        fits_i128(k * entry),
        fits_i128(k * current),
    ensures
        stop_loss_hit(entry, current, pct) <==> (entry > 0 && current < entry && (entry - current)
            * 100 >= pct * entry),
        stop_loss_hit((k * entry) as i128, (k * current) as i128, pct) == stop_loss_hit(
            entry,
            current,
            pct,
        ),
{
    let ke = k * entry;
    let kc = k * current;
    assert(current * 100 <= entry * (100 - pct) <==> (entry - current) * 100 >= pct * entry)
        by (nonlinear_arith);
    assert(ke > 0 <==> entry > 0) by (nonlinear_arith)
        requires
            k > 0,
            ke == k * entry,
    ;
    assert(kc < ke <==> current < entry) by (nonlinear_arith)
        requires
            k > 0,
            ke == k * entry,
            kc == k * current,
    ;
    assert(kc * 100 <= ke * (100 - pct) <==> current * 100 <= entry * (100 - pct))
        by (nonlinear_arith)
        requires
            k > 0,
            ke == k * entry,
            kc == k * current,
    ;
}

/// Each line of the portfolio report describes the position as held: its
/// asset, amount and entry price are the position's own, whatever price the
/// oracle quotes; only the current price (the oracle's, when it has one)
/// and the value follow the market.
pub proof fn law_report_line_keeps_the_position(v: EnvView, p: Position, prices: Map<u32, i128>)
    ensures
        holding_of(v, p).asset_id == p.asset_id,
        holding_of(v, p).amount == p.amount,
        holding_of(v, p).entry_price == p.entry_price,
        holding_of(EnvView { asset_prices: prices, ..v }, p).entry_price == holding_of(v, p).entry_price,
        v.asset_price(p.asset_id) matches Some(q) ==> holding_of(v, p).current_price == q,
        holding_of(v, p).current_price == valuation_price(v, p),
        holding_of(v, p).value == position_value(v, p) as i128,
{
}

/// Catching up never buys for periods that have not happened yet: the
/// number of missed purchases is at most the number of whole periods from
/// the last purchase (or the start) to now, whatever the end time, and none
/// are missed before a period has begun. Without an end time it is exactly
/// that number.
pub proof fn law_missed_periods_never_run_ahead(s: DCAStrategyView, now: u64)
    requires
        interval_of(s.frequency) > 0,
    ensures
        ({
            let from: int = if s.purchases.len() == 0 { s.start_time as int } else { s.last_purchase_time as int };
            let period = interval_of(s.frequency) as int;
            &&& now <= from ==> missed_periods(s, now) == 0
            &&& now > from ==> 0 <= missed_periods(s, now) <= (now - from) / period
            &&& (now > from && s.end_time == 0) ==> missed_periods(s, now) == (now - from) / period
        }),
{
    let from: int = if s.purchases.len() == 0 { s.start_time as int } else { s.last_purchase_time as int };
    let period = interval_of(s.frequency) as int;
    let to: int = if s.end_time != 0 && s.end_time < now { s.end_time as int } else { now as int };
    if to > from {
        vstd::arithmetic::div_mod::lemma_div_is_ordered(to - from, now - from, period);
        vstd::arithmetic::div_mod::lemma_div_is_ordered(0, to - from, period);
    }
}

} // verus!
