use vstd::prelude::*;

use crate::env::{Env, EnvView};
use crate::errors::AutoTradeError;
use crate::types::{copy_vec, fits_i128, lemma_tdiv_bounded, tdiv, UserId, SECONDS_PER_DAY};

verus! {

/// How often a dollar-cost-averaging strategy buys.
#[derive(Clone, Copy, Debug, PartialEq, Eq, Structural)]
pub enum DCAFrequency {
    Daily,
    Weekly,
    Monthly,
    Custom { interval_seconds: u64 },
}

/// Whether a strategy buys when it is due.
#[derive(Clone, Copy, Debug, PartialEq, Eq, Structural)]
pub enum DCAStatus {
    Active,
    Paused,
}

/// One purchase made by a strategy: what was spent, at which price, and how
/// much of the asset it bought (in millionths of a unit).
#[derive(Clone, Copy, Debug, PartialEq, Eq, Structural)]
pub struct DCAPurchase {
    pub timestamp: u64,
    pub amount: i128,
    pub price: i128,
    pub acquired: i128,
}

/// A dollar-cost-averaging strategy: buys `purchase_amount` of `asset_id`
/// every period from `start_time` until `end_time` (0: no end).
pub struct DCAStrategy {
    pub id: u64,
    pub user: UserId,
    pub asset_id: u32,
    pub purchase_amount: i128,
    pub frequency: DCAFrequency,
    pub start_time: u64,
    pub end_time: u64,
    pub last_purchase_time: u64,
    pub status: DCAStatus,
    pub purchases: Vec<DCAPurchase>,
    pub total_invested: i128,
    pub total_acquired: i128,
    pub average_entry_price: i128,
}

/// The mathematical value of a strategy: its fields, with the purchase log
/// as a sequence.
pub struct DCAStrategyView {
    pub id: u64,
    pub user: UserId,
    pub asset_id: u32,
    pub purchase_amount: i128,
    pub frequency: DCAFrequency,
    pub start_time: u64,
    pub end_time: u64,
    pub last_purchase_time: u64,
    pub status: DCAStatus,
    pub purchases: Seq<DCAPurchase>,
    pub total_invested: i128,
    pub total_acquired: i128,
    pub average_entry_price: i128,
}

impl View for DCAStrategy {
    type V = DCAStrategyView;

    open spec fn view(&self) -> DCAStrategyView {
        DCAStrategyView {
            id: self.id,
            user: self.user,
            asset_id: self.asset_id,
            purchase_amount: self.purchase_amount,
            frequency: self.frequency,
            start_time: self.start_time,
            end_time: self.end_time,
            last_purchase_time: self.last_purchase_time,
            status: self.status,
            purchases: self.purchases@,
            total_invested: self.total_invested,
            total_acquired: self.total_acquired,
            average_entry_price: self.average_entry_price,
        }
    }
}

/// Units of an asset are counted in millionths.
pub const PRECISION: i128 = 1_000_000;

/// Seconds between two purchases.
pub open spec fn interval_of(f: DCAFrequency) -> u64 {
    match f {
        DCAFrequency::Daily => 86_400,
        DCAFrequency::Weekly => 604_800,
        DCAFrequency::Monthly => 2_592_000,
        DCAFrequency::Custom { interval_seconds } => interval_seconds,
    }
}

/// Seconds between two purchases.
pub fn frequency_interval(f: DCAFrequency) -> (s: u64)
    ensures
        s == interval_of(f),
{
    match f {
        DCAFrequency::Daily => 86_400,
        DCAFrequency::Weekly => 604_800,
        DCAFrequency::Monthly => 2_592_000,
        DCAFrequency::Custom { interval_seconds } => interval_seconds,
    }
}

/// Millionths of a unit that `amount` buys at `price`, rounded down.
pub open spec fn acquired_for(amount: i128, price: i128) -> int {
    tdiv(amount * PRECISION, price as int)
}

/// Average price paid per unit, given what was spent and the millionths
/// of a unit acquired (0 before anything was acquired).
pub open spec fn average_price(invested: int, acquired: int) -> int {
    if acquired > 0 {
        tdiv(invested * PRECISION, acquired)
    } else {
        0
    }
}

pub open spec fn sum_invested(ps: Seq<DCAPurchase>) -> int
    decreases ps.len(),
{
    if ps.len() == 0 {
        0
    } else {
        sum_invested(ps.drop_last()) + ps.last().amount
    }
}

pub open spec fn sum_acquired(ps: Seq<DCAPurchase>) -> int
    decreases ps.len(),
{
    if ps.len() == 0 {
        0
    } else {
        sum_acquired(ps.drop_last()) + ps.last().acquired
    }
}

/// What every stored strategy satisfies: a positive amount and period,
/// purchases made at positive prices for positive amounts with the
/// quantity that the price gives, and running totals and average that
/// agree with the purchase log.
pub open spec fn strategy_consistent(s: DCAStrategyView) -> bool {
    &&& s.purchase_amount > 0
    &&& interval_of(s.frequency) > 0
    &&& forall|i: int|
        0 <= i < s.purchases.len() ==> {
            &&& (#[trigger] s.purchases[i]).price > 0
            &&& s.purchases[i].amount > 0
            &&& s.purchases[i].acquired == acquired_for(s.purchases[i].amount, s.purchases[i].price)
        }
    &&& s.total_invested == sum_invested(s.purchases)
    &&& s.total_acquired == sum_acquired(s.purchases)
    &&& s.average_entry_price == average_price(s.total_invested as int, s.total_acquired as int)
}

/// The strategy stored under `id`, if any.
pub open spec fn strategy_at(v: EnvView, id: u64) -> Option<DCAStrategyView> {
    if id < v.strategies.len() {
        Some(v.strategies[id as int])
    } else {
        None
    }
}

/// The ledger with strategy `id` replaced by `s`.
pub open spec fn with_strategy(v: EnvView, id: u64, s: DCAStrategyView) -> EnvView {
    EnvView { strategies: v.strategies.update(id as int, s), ..v }
}

/// Whether strategy `s` should buy at ledger time `now`: it is active, has
/// not ended, and either never bought or bought a full period ago.
pub open spec fn purchase_due(s: DCAStrategyView, now: u64) -> bool {
    &&& s.status == DCAStatus::Active
    &&& s.end_time == 0 || now <= s.end_time
    &&& s.purchases.len() == 0 || now >= s.last_purchase_time + interval_of(s.frequency)
}

/// The strategy after one purchase at `now` at `price`.
pub open spec fn after_purchase(s: DCAStrategyView, now: u64, price: i128) -> DCAStrategyView {
    let acquired = acquired_for(s.purchase_amount, price);
    let invested = s.total_invested + s.purchase_amount;
    let total = s.total_acquired + acquired;
    DCAStrategyView {
        purchases: s.purchases.push(
            DCAPurchase { timestamp: now, amount: s.purchase_amount, price, acquired: acquired as i128 },
        ),
        last_purchase_time: now,
        total_invested: invested as i128,
        total_acquired: total as i128,
        average_entry_price: average_price(invested, total) as i128,
        ..s
    }
}

/// Whether the arithmetic of one purchase at `price` stays within `i128`.
pub open spec fn purchase_fits(s: DCAStrategyView, price: i128) -> bool {
    let acquired = acquired_for(s.purchase_amount, price);
    &&& fits_i128(s.purchase_amount * PRECISION)
    &&& fits_i128(s.total_invested + s.purchase_amount)
    &&& fits_i128(s.total_acquired + acquired)
    &&& fits_i128((s.total_invested + s.purchase_amount) * PRECISION)
}

/// The strategy after `k` purchases at `now` at `price`.
pub open spec fn repeat_purchase(s: DCAStrategyView, now: u64, price: i128, k: nat) -> DCAStrategyView
    decreases k,
{
    if k == 0 {
        s
    } else {
        after_purchase(repeat_purchase(s, now, price, (k - 1) as nat), now, price)
    }
}

/// Whether `k` successive purchases at `price` stay within `i128`.
pub open spec fn purchases_fit(s: DCAStrategyView, now: u64, price: i128, k: nat) -> bool {
    forall|j: nat| j < k ==> purchase_fits(#[trigger] repeat_purchase(s, now, price, j), price)
}

/// Number of whole periods that went by without a purchase: from the last
/// purchase (or the start) to now, or to the end time when that came first.
pub open spec fn missed_periods(s: DCAStrategyView, now: u64) -> int {
    let from = if s.purchases.len() == 0 { s.start_time } else { s.last_purchase_time };
    let to = if s.end_time != 0 && s.end_time < now { s.end_time } else { now };
    if to <= from {
        0
    } else {
        (to - from) / (interval_of(s.frequency) as int)
    }
}

/// `missed_periods`, as many as a `u32` counts.
pub open spec fn missed_count(s: DCAStrategyView, now: u64) -> u32 {
    if missed_periods(s, now) > u32::MAX {
        u32::MAX
    } else {
        missed_periods(s, now) as u32
    }
}

/// The oracle price at which a strategy buys, when there is a usable one.
pub open spec fn buy_price(v: EnvView, s: DCAStrategyView) -> Option<i128> {
    match v.asset_price(s.asset_id) {
        Some(p) => if p > 0 {
            Some(p)
        } else {
            None
        },
        None => None,
    }
}

proof fn lemma_purchase_consistent(s: DCAStrategyView, now: u64, price: i128)
    requires
        strategy_consistent(s),
        price > 0,
        purchase_fits(s, price),
    ensures
        strategy_consistent(after_purchase(s, now, price)),
{
    let t = after_purchase(s, now, price);
    let acquired = acquired_for(s.purchase_amount, price);
    assert(acquired >= 0) by (nonlinear_arith)
        requires
            acquired == tdiv(s.purchase_amount * PRECISION, price as int),
            s.purchase_amount > 0,
            price > 0,
    ;
    assert(t.purchases.drop_last() =~= s.purchases);
    assert forall|i: int| 0 <= i < t.purchases.len() implies {
        &&& (#[trigger] t.purchases[i]).price > 0
        &&& t.purchases[i].amount > 0
        &&& t.purchases[i].acquired == acquired_for(t.purchases[i].amount, t.purchases[i].price)
    } by {
        if i < s.purchases.len() {
            assert(t.purchases[i] == s.purchases[i]);
        }
    }
}

/// Opens a strategy for `user` buying `purchase_amount` of `asset_id` every
/// period of `frequency`, for `duration_days` days from now or without end.
/// Refused with `InvalidAmount` for a non-positive amount and with
/// `InvalidFrequency` for a zero-length custom period.
pub fn create_dca_strategy(
    env: &mut Env,
    user: UserId,
    asset_id: u32,
    purchase_amount: i128,
    frequency: DCAFrequency,
    duration_days: Option<u32>,
) -> (r: Result<u64, AutoTradeError>)
    requires
        match duration_days {
            Some(d) => old(env)@.now + d * SECONDS_PER_DAY <= u64::MAX,
            None => true,
        },
    ensures
        purchase_amount <= 0 ==> r == Err::<u64, AutoTradeError>(AutoTradeError::InvalidAmount)
            && final(env)@ == old(env)@,
        purchase_amount > 0 && interval_of(frequency) == 0 ==> r == Err::<u64, AutoTradeError>(
            AutoTradeError::InvalidFrequency,
        ) && final(env)@ == old(env)@,
        purchase_amount > 0 && interval_of(frequency) > 0 ==> {
            let id = old(env)@.strategies.len();
            &&& r == Ok::<u64, AutoTradeError>(id as u64)
            &&& final(env)@ == (EnvView {
                strategies: old(env)@.strategies.push(
                    DCAStrategyView {
                        id: id as u64,
                        user,
                        asset_id,
                        purchase_amount,
                        frequency,
                        start_time: old(env)@.now,
                        end_time: match duration_days {
                            Some(d) => (old(env)@.now + d * SECONDS_PER_DAY) as u64,
                            None => 0,
                        },
                        last_purchase_time: 0,
                        status: DCAStatus::Active,
                        purchases: Seq::empty(),
                        total_invested: 0,
                        total_acquired: 0,
                        average_entry_price: 0,
                    },
                ),
                ..old(env)@
            })
        },
{
    if purchase_amount <= 0 {
        return Err(AutoTradeError::InvalidAmount);
    }
    if frequency_interval(frequency) == 0 {
        return Err(AutoTradeError::InvalidFrequency);
    }
    let now = env.timestamp();
    let end_time = match duration_days {
        Some(d) => now + (d as u64) * SECONDS_PER_DAY,
        None => 0,
    };
    let id = env.strategy_count() as u64;
    let s = DCAStrategy {
        id,
        user,
        asset_id,
        purchase_amount,
        frequency,
        start_time: now,
        end_time,
        last_purchase_time: 0,
        status: DCAStatus::Active,
        purchases: Vec::new(),
        total_invested: 0,
        total_acquired: 0,
        average_entry_price: 0,
    };
    env.push_strategy(s);
    Ok(id)
}

/// A copy of the strategy stored under `id`, if any.
pub fn get_dca_strategy(env: &Env, id: u64) -> (r: Option<DCAStrategy>)
    ensures
        match r {
            Some(s) => strategy_at(env@, id) == Some(s@),
            None => strategy_at(env@, id) is None,
        },
{
    if id >= env.strategy_count() as u64 {
        return None;
    }
    let s = env.strategy(id as usize);
    Some(
        DCAStrategy {
            id: s.id,
            user: s.user,
            asset_id: s.asset_id,
            purchase_amount: s.purchase_amount,
            frequency: s.frequency,
            start_time: s.start_time,
            end_time: s.end_time,
            last_purchase_time: s.last_purchase_time,
            status: s.status,
            purchases: copy_vec(&s.purchases),
            total_invested: s.total_invested,
            total_acquired: s.total_acquired,
            average_entry_price: s.average_entry_price,
        },
    )
}

/// Whether strategy `id` should buy now; `StrategyNotFound` when there is
/// no such strategy.
pub fn is_purchase_due(env: &Env, id: u64) -> (r: Result<bool, AutoTradeError>)
    ensures
        match strategy_at(env@, id) {
            Some(s) => r == Ok::<bool, AutoTradeError>(purchase_due(s, env@.now)),
            None => r == Err::<bool, AutoTradeError>(AutoTradeError::StrategyNotFound),
        },
{
    if id >= env.strategy_count() as u64 {
        return Err(AutoTradeError::StrategyNotFound);
    }
    let s = env.strategy(id as usize);
    let now = env.timestamp();
    if s.status != DCAStatus::Active {
        return Ok(false);
    }
    if s.end_time != 0 && now > s.end_time {
        return Ok(false);
    }
    if s.purchases.len() == 0 {
        return Ok(true);
    }
    let interval = frequency_interval(s.frequency);
    Ok(now >= s.last_purchase_time && now - s.last_purchase_time >= interval)
}

/// Makes one purchase for strategy `id` at `price`.
fn buy_once(env: &mut Env, id: usize, price: i128)
    requires
        id < old(env)@.strategies.len(),
        price > 0,
        purchase_fits(old(env)@.strategies[id as int], price),
    ensures
        final(env)@ == with_strategy(
            old(env)@,
            id as u64,
            after_purchase(old(env)@.strategies[id as int], old(env)@.now, price),
        ),
{
    let ghost v = env@;
    let ghost sv = v.strategies[id as int];
    let now = env.timestamp();
    let s = env.strategy(id);
    let amount = s.purchase_amount;
    let acquired = amount * PRECISION / price;
    let invested = s.total_invested + amount;
    let total = s.total_acquired + acquired;
    let average = if total > 0 {
        proof {
            lemma_tdiv_bounded(invested as int * PRECISION, total as int);
        }
        invested * PRECISION / total
    } else {
        0
    };
    let p = DCAPurchase { timestamp: now, amount, price, acquired };
    proof {
        use_type_invariant(&*env);
        lemma_purchase_consistent(sv, now, price);
    }
    env.record_strategy_purchase(id, p, invested, total, average);
    proof {
        assert(env@.strategies =~= with_strategy(v, id as u64, after_purchase(sv, now, price)).strategies);
    }
}

/// Buys for strategy `id` if it is due.
///
/// Refused, leaving the ledger unchanged, with `StrategyNotFound`,
/// `StrategyNotActive`, `PurchaseNotDue`, or `PriceUnavailable` when the
/// oracle has no positive price for the asset. When the user's balance does
/// not cover the purchase the strategy is paused and `InsufficientBalance`
/// returned. Otherwise one purchase is made at the oracle price.
pub fn execute_dca_purchase(env: &mut Env, id: u64) -> (r: Result<(), AutoTradeError>)
    requires
        strategy_at(old(env)@, id) matches Some(s) ==> (buy_price(old(env)@, s) matches Some(p)
            ==> purchase_fits(s, p)),
    ensures
        match strategy_at(old(env)@, id) {
            None => r == Err::<(), AutoTradeError>(AutoTradeError::StrategyNotFound)
                && final(env)@ == old(env)@,
            Some(s) => if s.status != DCAStatus::Active {
                r == Err::<(), AutoTradeError>(AutoTradeError::StrategyNotActive)
                    && final(env)@ == old(env)@
            } else if !purchase_due(s, old(env)@.now) {
                r == Err::<(), AutoTradeError>(AutoTradeError::PurchaseNotDue)
                    && final(env)@ == old(env)@
            } else if buy_price(old(env)@, s) is None {
                r == Err::<(), AutoTradeError>(AutoTradeError::PriceUnavailable)
                    && final(env)@ == old(env)@
            } else if old(env)@.balance(s.user) < s.purchase_amount {
                &&& r == Err::<(), AutoTradeError>(AutoTradeError::InsufficientBalance)
                &&& final(env)@ == with_strategy(
                    old(env)@,
                    id,
                    DCAStrategyView { status: DCAStatus::Paused, ..s },
                )
            } else {
                &&& r == Ok::<(), AutoTradeError>(())
                &&& final(env)@ == with_strategy(
                    old(env)@,
                    id,
                    after_purchase(s, old(env)@.now, buy_price(old(env)@, s).unwrap()),
                )
            },
        },
{
    if id >= env.strategy_count() as u64 {
        return Err(AutoTradeError::StrategyNotFound);
    }
    let i = id as usize;
    let s = env.strategy(i);
    if s.status != DCAStatus::Active {
        return Err(AutoTradeError::StrategyNotActive);
    }
    match is_purchase_due(env, id) {
        Ok(true) => {},
        _ => {
            return Err(AutoTradeError::PurchaseNotDue);
        },
    }
    let s = env.strategy(i);
    let price = match env.asset_price(s.asset_id) {
        Some(p) => p,
        None => {
            return Err(AutoTradeError::PriceUnavailable);
        },
    };
    if price <= 0 {
        return Err(AutoTradeError::PriceUnavailable);
    }
    if env.balance(s.user) < s.purchase_amount {
        pause_at(env, i);
        return Err(AutoTradeError::InsufficientBalance);
    }
    buy_once(env, i, price);
    Ok(())
}

/// Sets strategy `i` to `Paused`.
fn pause_at(env: &mut Env, i: usize)
    requires
        i < old(env)@.strategies.len(),
    ensures
        final(env)@ == with_strategy(
            old(env)@,
            i as u64,
            DCAStrategyView { status: DCAStatus::Paused, ..old(env)@.strategies[i as int] },
        ),
{
    set_status_at(env, i, DCAStatus::Paused);
}

/// Sets the status of strategy `i`.
fn set_status_at(env: &mut Env, i: usize, status: DCAStatus)
    requires
        i < old(env)@.strategies.len(),
    ensures
        final(env)@ == with_strategy(
            old(env)@,
            i as u64,
            DCAStrategyView { status, ..old(env)@.strategies[i as int] },
        ),
{
    env.set_strategy_status(i, status);
}

/// Stops strategy `id` from buying; `StrategyNotFound` when there is none.
pub fn pause_dca_strategy(env: &mut Env, id: u64) -> (r: Result<(), AutoTradeError>)
    ensures
        match strategy_at(old(env)@, id) {
            Some(s) => r == Ok::<(), AutoTradeError>(()) && final(env)@ == with_strategy(
                old(env)@,
                id,
                DCAStrategyView { status: DCAStatus::Paused, ..s },
            ),
            None => r == Err::<(), AutoTradeError>(AutoTradeError::StrategyNotFound)
                && final(env)@ == old(env)@,
        },
{
    if id >= env.strategy_count() as u64 {
        return Err(AutoTradeError::StrategyNotFound);
    }
    set_status_at(env, id as usize, DCAStatus::Paused);
    Ok(())
}

/// Lets strategy `id` buy again; `StrategyNotFound` when there is none.
pub fn resume_dca_strategy(env: &mut Env, id: u64) -> (r: Result<(), AutoTradeError>)
    ensures
        match strategy_at(old(env)@, id) {
            Some(s) => r == Ok::<(), AutoTradeError>(()) && final(env)@ == with_strategy(
                old(env)@,
                id,
                DCAStrategyView { status: DCAStatus::Active, ..s },
            ),
            None => r == Err::<(), AutoTradeError>(AutoTradeError::StrategyNotFound)
                && final(env)@ == old(env)@,
        },
{
    if id >= env.strategy_count() as u64 {
        return Err(AutoTradeError::StrategyNotFound);
    }
    set_status_at(env, id as usize, DCAStatus::Active);
    Ok(())
}

/// Changes the amount and/or the period of strategy `id`.
///
/// Refused, leaving the ledger unchanged, with `StrategyNotFound`, with
/// `InvalidAmount` for a non-positive new amount, and with
/// `InvalidFrequency` for a zero-length custom period.
pub fn update_dca_schedule(
    env: &mut Env,
    id: u64,
    purchase_amount: Option<i128>,
    frequency: Option<DCAFrequency>,
) -> (r: Result<(), AutoTradeError>)
    ensures
        match strategy_at(old(env)@, id) {
            None => r == Err::<(), AutoTradeError>(AutoTradeError::StrategyNotFound)
                && final(env)@ == old(env)@,
            Some(s) => if purchase_amount matches Some(a) && a <= 0 {
                r == Err::<(), AutoTradeError>(AutoTradeError::InvalidAmount)
                    && final(env)@ == old(env)@
            } else if frequency matches Some(f) && interval_of(f) == 0 {
                r == Err::<(), AutoTradeError>(AutoTradeError::InvalidFrequency)
                    && final(env)@ == old(env)@
            } else {
                &&& r == Ok::<(), AutoTradeError>(())
                &&& final(env)@ == with_strategy(
                    old(env)@,
                    id,
                    DCAStrategyView {
                        purchase_amount: match purchase_amount {
                            Some(a) => a,
                            None => s.purchase_amount,
                        },
                        frequency: match frequency {
                            Some(f) => f,
                            None => s.frequency,
                        },
                        ..s
                    },
                )
            },
        },
{
    if id >= env.strategy_count() as u64 {
        return Err(AutoTradeError::StrategyNotFound);
    }
    let i = id as usize;
    if let Some(a) = purchase_amount {
        if a <= 0 {
            return Err(AutoTradeError::InvalidAmount);
        }
    }
    if let Some(f) = frequency {
        if frequency_interval(f) == 0 {
            return Err(AutoTradeError::InvalidFrequency);
        }
    }
    let s = env.strategy(i);
    let amount = match purchase_amount {
        Some(a) => a,
        None => s.purchase_amount,
    };
    let freq = match frequency {
        Some(f) => f,
        None => s.frequency,
    };
    proof { use_type_invariant(&*env); }
    env.set_strategy_schedule(i, amount, freq);
    Ok(())
}

/// How a strategy has done so far, valued at the current oracle price.
#[derive(Clone, Copy, Debug, PartialEq, Eq, Structural)]
pub struct DCAPerformance {
    pub total_invested: i128,
    pub total_acquired: i128,
    pub total_purchases: u64,
    pub average_entry_price: i128,
    pub current_price: i128,
    pub current_value: i128,
    pub profit_loss: i128,
}

/// Value of `acquired` millionths of a unit at `price`, rounded toward zero.
pub open spec fn holding_value(acquired: i128, price: i128) -> int {
    tdiv(acquired * price, PRECISION as int)
}

/// The performance report of `s` at `price`.
pub open spec fn performance_of(s: DCAStrategyView, price: i128) -> DCAPerformance {
    let value = holding_value(s.total_acquired, price);
    DCAPerformance {
        total_invested: s.total_invested,
        total_acquired: s.total_acquired,
        total_purchases: s.purchases.len() as u64,
        average_entry_price: s.average_entry_price,
        current_price: price,
        current_value: value as i128,
        profit_loss: (value - s.total_invested) as i128,
    }
}

/// Whether the arithmetic of the performance report stays within `i128`.
pub open spec fn performance_fits(s: DCAStrategyView, price: i128) -> bool {
    &&& fits_i128(s.total_acquired * price)
    &&& fits_i128(holding_value(s.total_acquired, price) - s.total_invested)
}

/// Reports how strategy `id` has done; `StrategyNotFound` when there is no
/// such strategy, `PriceUnavailable` when the oracle has no positive price.
pub fn analyze_dca_performance(env: &Env, id: u64) -> (r: Result<DCAPerformance, AutoTradeError>)
    requires
        strategy_at(env@, id) matches Some(s) ==> (buy_price(env@, s) matches Some(p)
            ==> performance_fits(s, p)),
    ensures
        match strategy_at(env@, id) {
            None => r == Err::<DCAPerformance, AutoTradeError>(AutoTradeError::StrategyNotFound),
            Some(s) => match buy_price(env@, s) {
                None => r == Err::<DCAPerformance, AutoTradeError>(AutoTradeError::PriceUnavailable),
                Some(p) => r == Ok::<DCAPerformance, AutoTradeError>(performance_of(s, p)),
            },
        },
{
    if id >= env.strategy_count() as u64 {
        return Err(AutoTradeError::StrategyNotFound);
    }
    let s = env.strategy(id as usize);
    let price = match env.asset_price(s.asset_id) {
        Some(p) => p,
        None => {
            return Err(AutoTradeError::PriceUnavailable);
        },
    };
    if price <= 0 {
        return Err(AutoTradeError::PriceUnavailable);
    }
    let value = s.total_acquired * price / PRECISION;
    Ok(
        DCAPerformance {
            total_invested: s.total_invested,
            total_acquired: s.total_acquired,
            total_purchases: s.purchases.len() as u64,
            average_entry_price: s.average_entry_price,
            current_price: price,
            current_value: value,
            profit_loss: value - s.total_invested,
        },
    )
}

/// Counts the periods strategy `s` went without buying, up to `now`.
fn count_missed(s: &DCAStrategy, now: u64) -> (k: u32)
    requires
        strategy_consistent(s@),
    ensures
        k == missed_count(s@, now),
{
    let from = if s.purchases.len() == 0 {
        s.start_time
    } else {
        s.last_purchase_time
    };
    let to = if s.end_time != 0 && s.end_time < now {
        s.end_time
    } else {
        now
    };
    if to <= from {
        return 0;
    }
    let periods = (to - from) / frequency_interval(s.frequency);
    if periods > u32::MAX as u64 {
        u32::MAX
    } else {
        periods as u32
    }
}

/// Catches up on the purchases strategy `id` missed: one purchase at the
/// current oracle price for each whole period that went by without one.
/// Returns how many were made.
///
/// Refused, leaving the ledger unchanged, with `StrategyNotFound`,
/// `StrategyNotActive`, or `PriceUnavailable` when purchases are owed but
/// the oracle has no positive price. When the user's balance does not
/// cover a purchase the strategy is paused and `InsufficientBalance`
/// returned.
pub fn handle_missed_dca_purchases(env: &mut Env, id: u64) -> (r: Result<u32, AutoTradeError>)
    requires
        strategy_at(old(env)@, id) matches Some(s) ==> (buy_price(old(env)@, s) matches Some(p)
            ==> purchases_fit(s, old(env)@.now, p, missed_count(s, old(env)@.now) as nat)),
    ensures
        match strategy_at(old(env)@, id) {
            None => r == Err::<u32, AutoTradeError>(AutoTradeError::StrategyNotFound)
                && final(env)@ == old(env)@,
            Some(s) => if s.status != DCAStatus::Active {
                r == Err::<u32, AutoTradeError>(AutoTradeError::StrategyNotActive)
                    && final(env)@ == old(env)@
            } else if missed_count(s, old(env)@.now) == 0 {
                r == Ok::<u32, AutoTradeError>(0) && final(env)@ == old(env)@
            } else if buy_price(old(env)@, s) is None {
                r == Err::<u32, AutoTradeError>(AutoTradeError::PriceUnavailable)
                    && final(env)@ == old(env)@
            } else if old(env)@.balance(s.user) < s.purchase_amount {
                &&& r == Err::<u32, AutoTradeError>(AutoTradeError::InsufficientBalance)
                &&& final(env)@ == with_strategy(
                    old(env)@,
                    id,
                    DCAStrategyView { status: DCAStatus::Paused, ..s },
                )
            } else {
                let k = missed_count(s, old(env)@.now);
                &&& r == Ok::<u32, AutoTradeError>(k)
                &&& final(env)@ == with_strategy(
                    old(env)@,
                    id,
                    repeat_purchase(s, old(env)@.now, buy_price(old(env)@, s).unwrap(), k as nat),
                )
            },
        },
{
    if id >= env.strategy_count() as u64 {
        return Err(AutoTradeError::StrategyNotFound);
    }
    let i = id as usize;
    let s = env.strategy(i);
    if s.status != DCAStatus::Active {
        return Err(AutoTradeError::StrategyNotActive);
    }
    proof {
        use_type_invariant(&*env);
        assert(strategy_consistent(env@.strategies[i as int]));
    }
    let missed = count_missed(s, env.timestamp());
    if missed == 0 {
        return Ok(0);
    }
    let price = match env.asset_price(s.asset_id) {
        Some(p) => p,
        None => {
            return Err(AutoTradeError::PriceUnavailable);
        },
    };
    if price <= 0 {
        return Err(AutoTradeError::PriceUnavailable);
    }
    if env.balance(s.user) < s.purchase_amount {
        pause_at(env, i);
        return Err(AutoTradeError::InsufficientBalance);
    }
    let ghost v = env@;
    let ghost s0 = v.strategies[i as int];
    assert(v.strategies.update(i as int, s0) =~= v.strategies);
    let mut j: u32 = 0;
    while j < missed
        invariant
            j <= missed,
            i < v.strategies.len(),
            env@ == with_strategy(v, i as u64, repeat_purchase(s0, v.now, price, j as nat)),
            price > 0,
            purchases_fit(s0, v.now, price, missed as nat),
        decreases missed - j,
    {
            assert(purchase_fits(repeat_purchase(s0, v.now, price, j as nat), price));
        buy_once(env, i, price);
        assert(env@.strategies =~= with_strategy(
            v,
            i as u64,
            repeat_purchase(s0, v.now, price, (j + 1) as nat),
        ).strategies);
        j = j + 1;
    }
    Ok(missed)
}

/// The oracle price at which strategy `s` buys, when there is a usable one.
fn buy_price_of(env: &Env, s: &DCAStrategy) -> (p: Option<i128>)
    ensures
        p == buy_price(env@, s@),
{
    match env.asset_price(s.asset_id) {
        Some(p) => if p > 0 {
            Some(p)
        } else {
            None
        },
        None => None,
    }
}

/// Whether one purchase of `s` at `price` stays within `i128`
/// (`purchase_fits`).
fn purchase_fits_check(s: &DCAStrategy, price: i128) -> (b: bool)
    requires
        price > 0,
    ensures
        b == purchase_fits(s@, price),
{
    let scaled = match s.purchase_amount.checked_mul(PRECISION) {
        Some(x) => x,
        None => {
            return false;
        },
    };
    let acquired = scaled / price;
    let invested = match s.total_invested.checked_add(s.purchase_amount) {
        Some(x) => x,
        None => {
            return false;
        },
    };
    s.total_acquired.checked_add(acquired).is_some() && invested.checked_mul(PRECISION).is_some()
}

/// Whether a purchase for strategy `id`, if one is made, stays within
/// `i128`; a purchase for which this is false would overflow.
pub fn purchase_in_range(env: &Env, id: u64) -> (b: bool)
    ensures
        b == (strategy_at(env@, id) matches Some(s) ==> (buy_price(env@, s) matches Some(p)
            ==> purchase_fits(s, p))),
{
    if id >= env.strategy_count() as u64 {
        return true;
    }
    let s = env.strategy(id as usize);
    match buy_price_of(env, s) {
        Some(p) => purchase_fits_check(s, p),
        None => true,
    }
}

/// Whether the performance report of strategy `id` stays within `i128`.
pub fn performance_in_range(env: &Env, id: u64) -> (b: bool)
    ensures
        b == (strategy_at(env@, id) matches Some(s) ==> (buy_price(env@, s) matches Some(p)
            ==> performance_fits(s, p))),
{
    if id >= env.strategy_count() as u64 {
        return true;
    }
    let s = env.strategy(id as usize);
    match buy_price_of(env, s) {
        Some(p) => match s.total_acquired.checked_mul(p) {
            Some(x) => (x / PRECISION).checked_sub(s.total_invested).is_some(),
            None => false,
        },
        None => true,
    }
}

/// Whether catching up strategy `id` stays within `i128`; a catch-up for
/// which this is false would overflow.
pub fn catch_up_in_range(env: &Env, id: u64) -> (b: bool)
    ensures
        b == (strategy_at(env@, id) matches Some(s) ==> (buy_price(env@, s) matches Some(p)
            ==> purchases_fit(s, env@.now, p, missed_count(s, env@.now) as nat))),
{
    if id >= env.strategy_count() as u64 {
        return true;
    }
    let s = env.strategy(id as usize);
    let price = match buy_price_of(env, s) {
        Some(p) => p,
        None => {
            return true;
        },
    };
    proof {
        use_type_invariant(&*env);
        assert(strategy_consistent(env@.strategies[id as int]));
    }
    let now = env.timestamp();
    let missed = count_missed(s, now);
    let ghost sv = s@;
    let amount = s.purchase_amount;
    let mut invested = s.total_invested;
    let mut acquired_total = s.total_acquired;
    let mut j: u32 = 0;
    while j < missed
        invariant
            j <= missed,
            price > 0,
            id < env@.strategies.len(),
            sv == env@.strategies[id as int],
            buy_price(env@, sv) == Some(price),
            now == env@.now,
            missed == missed_count(sv, now),
            amount == sv.purchase_amount,
            repeat_purchase(sv, now, price, j as nat).total_invested == invested,
            repeat_purchase(sv, now, price, j as nat).total_acquired == acquired_total,
            repeat_purchase(sv, now, price, j as nat).purchase_amount == amount,
            forall|i: nat| i < j ==> purchase_fits(#[trigger] repeat_purchase(sv, now, price, i), price),
        decreases missed - j,
    {
        let ghost cur = repeat_purchase(sv, now, price, j as nat);
        let scaled = match amount.checked_mul(PRECISION) {
            Some(x) => x,
            None => {
                assert(!purchase_fits(cur, price));
                return false;
            },
        };
        let acquired = scaled / price;
        let next_invested = match invested.checked_add(amount) {
            Some(x) => x,
            None => {
                assert(!purchase_fits(cur, price));
                return false;
            },
        };
        let next_acquired = match acquired_total.checked_add(acquired) {
            Some(x) => x,
            None => {
                assert(!purchase_fits(cur, price));
                return false;
            },
        };
        if next_invested.checked_mul(PRECISION).is_none() {
            assert(!purchase_fits(cur, price));
            return false;
        }
        assert(purchase_fits(cur, price));
        assert(repeat_purchase(sv, now, price, (j + 1) as nat) == after_purchase(cur, now, price));
        invested = next_invested;
        acquired_total = next_acquired;
        j = j + 1;
    }
    true
}

/// Whether the arithmetic behind a strategy's log stays within `i128`:
/// each purchase amount in millionths, and the amount invested in
/// millionths. Every strategy this library stores satisfies it, since each
/// purchase is made only when its arithmetic fits.
pub open spec fn log_in_range(s: DCAStrategyView) -> bool {
    &&& forall|i: int| 0 <= i < s.purchases.len() ==> fits_i128(#[trigger] s.purchases[i].amount * PRECISION)
    &&& fits_i128(s.total_invested * PRECISION)
}

proof fn lemma_sums_grow(ps: Seq<DCAPurchase>, k: int)
    requires
        0 <= k <= ps.len(),
        forall|i: int| 0 <= i < ps.len() ==> (#[trigger] ps[i]).amount > 0 && ps[i].acquired >= 0,
    ensures
        sum_invested(ps.take(k)) <= sum_invested(ps),
        sum_acquired(ps.take(k)) <= sum_acquired(ps),
    decreases ps.len(),
{
    if k == ps.len() {
        assert(ps.take(k) =~= ps);
    } else {
        let qs = ps.drop_last();
        assert forall|i: int| 0 <= i < qs.len() implies (#[trigger] qs[i]).amount > 0 && qs[i].acquired >= 0 by {
            assert(qs[i] == ps[i]);
        }
        lemma_sums_grow(qs, k);
        assert(qs.take(k) =~= ps.take(k));
        assert(ps[ps.len() - 1] == ps.last());
    }
}

proof fn lemma_acquired_nonnegative(amount: i128, price: i128)
    requires
        amount > 0,
        price > 0,
    ensures
        acquired_for(amount, price) >= 0,
{
    let x = amount * PRECISION;
    assert(x / (price as int) >= 0) by (nonlinear_arith)
        requires
            x > 0,
            price > 0,
    ;
}

/// Whether a strategy read back from storage is one this library could
/// have stored: consistent with its purchase log (`strategy_consistent`),
/// with the log's arithmetic within `i128` (`log_in_range`).
pub fn strategy_checks_out(s: &DCAStrategy) -> (b: bool)
    ensures
        b == (strategy_consistent(s@) && log_in_range(s@)),
{
    if s.purchase_amount <= 0 || frequency_interval(s.frequency) == 0 {
        return false;
    }
    if s.total_invested.checked_mul(PRECISION).is_none() {
        return false;
    }
    let ghost sv = s@;
    let ghost ps = s@.purchases;
    let mut invested: i128 = 0;
    let mut acquired: i128 = 0;
    let mut i: usize = 0;
    assert(ps.take(0) =~= Seq::<DCAPurchase>::empty());
    while i < s.purchases.len()
        invariant
            sv == s@,
            ps == sv.purchases,
            i <= ps.len(),
            invested == sum_invested(ps.take(i as int)),
            acquired == sum_acquired(ps.take(i as int)),
            forall|j: int|
                0 <= j < i ==> {
                    &&& (#[trigger] ps[j]).price > 0
                    &&& ps[j].amount > 0
                    &&& ps[j].acquired == acquired_for(ps[j].amount, ps[j].price)
                    &&& fits_i128(ps[j].amount * PRECISION)
                },
        decreases ps.len() - i,
    {
        let p = s.purchases[i];
        assert(p == ps[i as int]);
        if p.price <= 0 || p.amount <= 0 {
            return false;
        }
        let scaled = match p.amount.checked_mul(PRECISION) {
            Some(x) => x,
            None => {
                return false;
            },
        };
        if p.acquired != scaled / p.price {
            return false;
        }
        proof {
            lemma_acquired_nonnegative(p.amount, p.price);
        }
        assert(ps.take(i + 1).drop_last() =~= ps.take(i as int));
        assert(ps.take(i + 1).last() == p);
        invested = match invested.checked_add(p.amount) {
            Some(x) => x,
            None => {
                proof {
                    if strategy_consistent(sv) {
                        assert forall|j: int| 0 <= j < ps.len() implies (#[trigger] ps[j]).amount > 0
                            && ps[j].acquired >= 0 by {
                            lemma_acquired_nonnegative(ps[j].amount, ps[j].price);
                        }
                        lemma_sums_grow(ps, i + 1);
                    }
                }
                return false;
            },
        };
        acquired = match acquired.checked_add(p.acquired) {
            Some(x) => x,
            None => {
                proof {
                    if strategy_consistent(sv) {
                        assert forall|j: int| 0 <= j < ps.len() implies (#[trigger] ps[j]).amount > 0
                            && ps[j].acquired >= 0 by {
                            lemma_acquired_nonnegative(ps[j].amount, ps[j].price);
                        }
                        lemma_sums_grow(ps, i + 1);
                    }
                }
                return false;
            },
        };
        i = i + 1;
    }
    assert(ps.take(ps.len() as int) =~= ps);
    if invested != s.total_invested || acquired != s.total_acquired {
        return false;
    }
    let average = if acquired > 0 {
        proof {
            lemma_tdiv_bounded(invested as int * PRECISION, acquired as int);
        }
        invested * PRECISION / acquired
    } else {
        0
    };
    average == s.average_entry_price
}

} // verus!
