use vstd::prelude::*;

use crate::env::{assets_distinct, Env, EnvView};
use crate::types::{copy_vec, fits_i128, lemma_tdiv_bounded, tdiv, DailyActivity, Position, RiskConfig, UserId, SECONDS_PER_DAY};

verus! {

// ---------------------------------------------------------------------
// Risk configuration
// ---------------------------------------------------------------------

/// The limits of a user who never set their own: at most 20% of the
/// portfolio in one asset, 10 filled trades a day, a 15% stop loss.
pub open spec fn default_risk_config() -> RiskConfig {
    RiskConfig { max_position_pct: 20, daily_trade_limit: 10, stop_loss_pct: 15 }
}

impl Default for RiskConfig {
    fn default() -> (c: RiskConfig)
        ensures
            c == default_risk_config(),
    {
        RiskConfig { max_position_pct: 20, daily_trade_limit: 10, stop_loss_pct: 15 }
    }
}

/// The limits that apply to `user`: their own, or the default ones.
pub open spec fn risk_config_of(v: EnvView, user: UserId) -> RiskConfig {
    match v.stored_risk_config(user) {
        Some(c) => c,
        None => default_risk_config(),
    }
}

/// The limits that apply to `user`.
pub fn get_risk_config(env: &Env, user: UserId) -> (c: RiskConfig)
    ensures
        c == risk_config_of(env@, user),
{
    match env.stored_risk_config(user) {
        Some(c) => c,
        None => RiskConfig::default(),
    }
}

/// Sets `user`'s own limits.
pub fn set_risk_config(env: &mut Env, user: UserId, config: &RiskConfig)
    ensures
        final(env)@ == (EnvView {
            risk_configs: old(env)@.risk_configs.insert(user, *config),
            ..old(env)@
        }),
{
    env.put_risk_config(user, *config);
}

// ---------------------------------------------------------------------
// Positions
// ---------------------------------------------------------------------

/// Whether a position list holds an entry for `asset`.
pub open spec fn has_asset(ps: Seq<Position>, asset: u32) -> bool {
    exists|i: int| 0 <= i < ps.len() && (#[trigger] ps[i]).asset_id == asset
}

/// The index of the entry for `asset` (meaningful when there is one).
pub open spec fn asset_index(ps: Seq<Position>, asset: u32) -> int {
    choose|i: int| 0 <= i < ps.len() && (#[trigger] ps[i]).asset_id == asset
}

/// The entry for `asset`, if any.
pub open spec fn position_in(ps: Seq<Position>, asset: u32) -> Option<Position> {
    if has_asset(ps, asset) {
        Some(ps[asset_index(ps, asset)])
    } else {
        None
    }
}

/// A position list as a map from asset to position.
pub open spec fn positions_map(ps: Seq<Position>) -> Map<u32, Position> {
    Map::new(|a: u32| has_asset(ps, a), |a: u32| ps[asset_index(ps, a)])
}

/// The list after setting the entry for `p.asset_id` to `p`: the entry is
/// replaced in place, or appended when the asset was not held.
pub open spec fn set_position(ps: Seq<Position>, p: Position) -> Seq<Position> {
    if has_asset(ps, p.asset_id) {
        ps.update(asset_index(ps, p.asset_id), p)
    } else {
        ps.push(p)
    }
}

/// In a list without repeated assets, the entry found for an asset is the
/// only one.
pub proof fn lemma_asset_index_unique(ps: Seq<Position>, i: int)
    requires
        assets_distinct(ps),
        0 <= i < ps.len(),
    ensures
        has_asset(ps, ps[i].asset_id),
        asset_index(ps, ps[i].asset_id) == i,
        position_in(ps, ps[i].asset_id) == Some(ps[i]),
{
    let a = ps[i].asset_id;
    assert(0 <= i < ps.len() && ps[i].asset_id == a);
    let j = asset_index(ps, a);
    assert(ps[j].asset_id == a);
}

/// Setting a position keeps assets distinct, and a lookup after the write
/// sees the written position for its asset and the old one for others.
pub proof fn lemma_set_position(ps: Seq<Position>, p: Position, a: u32)
    requires
        assets_distinct(ps),
    ensures
        assets_distinct(set_position(ps, p)),
        position_in(set_position(ps, p), a) == (if a == p.asset_id {
            Some(p)
        } else {
            position_in(ps, a)
        }),
{
    let qs = set_position(ps, p);
    if has_asset(ps, p.asset_id) {
        let k = asset_index(ps, p.asset_id);
        assert(ps[k].asset_id == p.asset_id);
        assert forall|i: int, j: int|
            0 <= i < qs.len() && 0 <= j < qs.len() && i != j implies #[trigger] qs[i].asset_id
            != #[trigger] qs[j].asset_id by {
            assert(ps[i].asset_id != ps[j].asset_id);
        }
    } else {
        assert forall|i: int, j: int|
            0 <= i < qs.len() && 0 <= j < qs.len() && i != j implies #[trigger] qs[i].asset_id
            != #[trigger] qs[j].asset_id by {
            if i < ps.len() && j < ps.len() {
                assert(ps[i].asset_id != ps[j].asset_id);
            } else if i == ps.len() {
                assert(ps[j].asset_id != p.asset_id);
            } else {
                assert(ps[i].asset_id != p.asset_id);
            }
        }
    }
    if a == p.asset_id {
        let n = if has_asset(ps, p.asset_id) { asset_index(ps, p.asset_id) } else { ps.len() as int };
        assert(qs[n] == p);
        lemma_asset_index_unique(qs, n);
    } else {
        if has_asset(ps, a) {
            let k = asset_index(ps, a);
            assert(qs[k] == ps[k]);
            lemma_asset_index_unique(qs, k);
            lemma_asset_index_unique(ps, k);
        } else {
            assert forall|i: int| 0 <= i < qs.len() implies (#[trigger] qs[i]).asset_id != a by {
                // Each entry is either an old one, for another asset, or `p`.
                if i < ps.len() {
                    assert(!(0 <= i < ps.len() && ps[i].asset_id == a));
                }
            }
        }
    }
}

/// Finds the entry for `asset`.
pub fn find_asset(ps: &Vec<Position>, asset: u32) -> (r: Option<usize>)
    ensures
        match r {
            Some(i) => i < ps@.len() && ps@[i as int].asset_id == asset,
            None => !has_asset(ps@, asset),
        },
{
    let mut i: usize = 0;
    while i < ps.len()
        invariant
            i <= ps@.len(),
            forall|j: int| 0 <= j < i ==> (#[trigger] ps@[j]).asset_id != asset,
        decreases ps@.len() - i,
    {
        if ps[i].asset_id == asset {
            return Some(i);
        }
        i = i + 1;
    }
    None
}

/// `user`'s position in `asset`, if they hold one.
pub fn get_position(env: &Env, user: UserId, asset: u32) -> (r: Option<Position>)
    ensures
        r == position_in(env@.positions_of(user), asset),
{
    let ps = env.positions(user);
    proof {
        use_type_invariant(&*env);
        env@.positions_of_distinct(user);
    }
    match find_asset(&ps, asset) {
        Some(i) => {
            proof {
                lemma_asset_index_unique(ps@, i as int);
            }
            Some(ps[i])
        },
        None => None,
    }
}

/// Whether no two entries of a position list are for the same asset.
pub fn distinct_assets(ps: &Vec<Position>) -> (b: bool)
    ensures
        b == assets_distinct(ps@),
{
    let mut i: usize = 0;
    while i < ps.len()
        invariant
            i <= ps@.len(),
            forall|a: int, c: int|
                0 <= a < i && 0 <= c < i && a != c ==> #[trigger] ps@[a].asset_id != #[trigger] ps@[c].asset_id,
        decreases ps@.len() - i,
    {
        let mut j: usize = 0;
        while j < i
            invariant
                j <= i < ps@.len(),
                forall|c: int| 0 <= c < j ==> #[trigger] ps@[c].asset_id != ps@[i as int].asset_id,
            decreases i - j,
        {
            if ps[j].asset_id == ps[i].asset_id {
                assert(ps@[j as int].asset_id == ps@[i as int].asset_id);
                return false;
            }
            j = j + 1;
        }
        i = i + 1;
    }
    true
}

/// Sets `user`'s position in `asset` to `amount` bought at `entry_price`.
pub fn update_position(env: &mut Env, user: UserId, asset: u32, amount: i128, entry_price: i128)
    ensures
        final(env)@ == (EnvView {
            positions: old(env)@.positions.insert(
                user,
                set_position(
                    old(env)@.positions_of(user),
                    Position { asset_id: asset, amount, entry_price },
                ),
            ),
            ..old(env)@
        }),
{
    let p = Position { asset_id: asset, amount, entry_price };
    let mut ps = env.positions(user);
    proof {
        use_type_invariant(&*env);
        env@.positions_of_distinct(user);
        lemma_set_position(ps@, p, asset);
    }
    let ghost old_ps = ps@;
    match find_asset(&ps, asset) {
        Some(i) => {
            proof {
                lemma_asset_index_unique(ps@, i as int);
            }
            ps.set(i, p);
        },
        None => {
            ps.push(p);
        },
    }
    assert(ps@ == set_position(old_ps, p));
    env.put_positions(user, ps);
}

/// A user's positions, looked up by asset.
pub struct Positions {
    entries: Vec<Position>,
}

impl Positions {
    #[verifier::type_invariant]
    spec fn inv(self) -> bool {
        assets_distinct(self.entries@)
    }
}

impl View for Positions {
    type V = Map<u32, Position>;

    closed spec fn view(&self) -> Map<u32, Position> {
        positions_map(self.entries@)
    }
}

impl Positions {
    /// Whether a position in `asset` is held.
    pub fn contains_key(&self, asset: u32) -> (b: bool)
        ensures
            b == self@.contains_key(asset),
    {
        find_asset(&self.entries, asset).is_some()
    }

    /// The position in `asset`, if held.
    pub fn get(&self, asset: u32) -> (r: Option<Position>)
        ensures
            r == (if self@.contains_key(asset) {
                Some(self@[asset])
            } else {
                None
            }),
    {
        match find_asset(&self.entries, asset) {
            Some(i) => {
                proof {
                    use_type_invariant(self);
                    lemma_asset_index_unique(self.entries@, i as int);
                }
                Some(self.entries[i])
            },
            None => None,
        }
    }

    /// Every position held, one per asset, in the order the assets were
    /// first bought.
    pub fn entries(&self) -> (r: Vec<Position>)
        ensures
            assets_distinct(r@),
            positions_map(r@) == self@,
            r@.len() == self@.dom().len(),
    {
        proof {
            use_type_invariant(self);
            lemma_positions_map_len(self.entries@);
        }
        copy_vec(&self.entries)
    }

    /// Number of assets held.
    pub fn len(&self) -> (n: usize)
        ensures
            n == self@.dom().len(),
    {
        proof {
            use_type_invariant(self);
            lemma_positions_map_len(self.entries@);
        }
        self.entries.len()
    }
}

/// A list without repeated assets has as many entries as its map has keys.
pub proof fn lemma_positions_map_len(ps: Seq<Position>)
    requires
        assets_distinct(ps),
    ensures
        positions_map(ps).dom().len() == ps.len(),
        positions_map(ps).dom().finite(),
    decreases ps.len(),
{
    let m = positions_map(ps);
    if ps.len() == 0 {
        assert(m.dom() =~= Set::<u32>::empty());
    } else {
        let qs = ps.drop_last();
        let a = ps.last().asset_id;
        assert forall|i: int, j: int|
            0 <= i < qs.len() && 0 <= j < qs.len() && i != j implies #[trigger] qs[i].asset_id
            != #[trigger] qs[j].asset_id by {
            assert(ps[i].asset_id != ps[j].asset_id);
        }
        lemma_positions_map_len(qs);
        assert forall|b: u32| #[trigger] m.dom().contains(b) <==> positions_map(qs).dom().insert(
            a,
        ).contains(b) by {
            if b != a && has_asset(ps, b) {
                let k = asset_index(ps, b);
                assert(k != ps.len() - 1);
                assert(qs[k].asset_id == b);
            }
            if has_asset(qs, b) {
                let k = asset_index(qs, b);
                assert(ps[k].asset_id == b);
            }
            if b == a {
                assert(ps[ps.len() - 1].asset_id == a);
            }
        }
        assert(m.dom() =~= positions_map(qs).dom().insert(a));
        assert(!positions_map(qs).dom().contains(a)) by {
            if has_asset(qs, a) {
                let k = asset_index(qs, a);
                assert(ps[k].asset_id == a);
                assert(ps[ps.len() - 1].asset_id == a);
            }
        }
    }
}

/// All of `user`'s positions.
pub fn get_user_positions(env: &Env, user: UserId) -> (r: Positions)
    ensures
        r@ == positions_map(env@.positions_of(user)),
{
    proof {
        use_type_invariant(&*env);
        env@.positions_of_distinct(user);
    }
    Positions { entries: env.positions(user) }
}

// ---------------------------------------------------------------------
// Valuation
// ---------------------------------------------------------------------

/// Records the oracle price of an asset.
pub fn set_asset_price(env: &mut Env, asset: u32, price: i128)
    ensures
        final(env)@ == (EnvView { asset_prices: old(env)@.asset_prices.insert(asset, price), ..old(env)@ }),
{
    env.put_asset_price(asset, price);
}

/// The price a position is valued at: the asset's oracle price, or the
/// entry price while the oracle has none.
pub open spec fn valuation_price(v: EnvView, p: Position) -> i128 {
    match v.asset_price(p.asset_id) {
        Some(q) => q,
        None => p.entry_price,
    }
}

/// Value of a position: amount times price, in hundredths (prices are
/// quoted with 100 as par).
pub open spec fn position_value(v: EnvView, p: Position) -> int {
    tdiv(p.amount * valuation_price(v, p), 100)
}

/// Sum of the values of a list of positions.
pub open spec fn sum_values(v: EnvView, ps: Seq<Position>) -> int
    decreases ps.len(),
{
    if ps.len() == 0 {
        0
    } else {
        sum_values(v, ps.drop_last()) + position_value(v, ps.last())
    }
}

/// Value of all of `user`'s positions.
pub open spec fn portfolio_value(v: EnvView, user: UserId) -> int {
    sum_values(v, v.positions_of(user))
}

/// Whether valuing a list of positions stays within `i128`: each
/// amount-times-price product and each running total fits.
pub open spec fn values_fit(v: EnvView, ps: Seq<Position>) -> bool {
    &&& forall|i: int| 0 <= i < ps.len() ==> fits_i128(#[trigger] ps[i].amount * valuation_price(v, ps[i]))
    &&& forall|k: int| 0 <= k <= ps.len() ==> fits_i128(sum_values(v, #[trigger] ps.take(k)))
}

pub open spec fn portfolio_fits(v: EnvView, user: UserId) -> bool {
    values_fit(v, v.positions_of(user))
}

/// The price at which `env` values `p`.
pub fn valuation_price_of(env: &Env, p: &Position) -> (q: i128)
    ensures
        q == valuation_price(env@, *p),
{
    match env.asset_price(p.asset_id) {
        Some(q) => q,
        None => p.entry_price,
    }
}

/// Total value of `user`'s positions at current prices.
pub fn calculate_portfolio_value(env: &Env, user: UserId) -> (total: i128)
    requires
        portfolio_fits(env@, user),
    ensures
        total == portfolio_value(env@, user),
{
    let ps = env.positions(user);
    let mut total: i128 = 0;
    let mut i: usize = 0;
    assert(ps@.take(0) =~= Seq::<Position>::empty());
    while i < ps.len()
        invariant
            i <= ps@.len(),
            ps@ == env@.positions_of(user),
            values_fit(env@, ps@),
            total == sum_values(env@, ps@.take(i as int)),
        decreases ps@.len() - i,
    {
        let p = ps[i];
        let price = valuation_price_of(env, &p);
        assert(fits_i128(ps@[i as int].amount * valuation_price(env@, ps@[i as int])));
        let value = p.amount * price / 100;
        assert(ps@.take(i + 1).drop_last() =~= ps@.take(i as int));
        assert(fits_i128(sum_values(env@, ps@.take(i + 1))));
        total = total + value;
        i = i + 1;
    }
    assert(ps@.take(ps@.len() as int) =~= ps@);
    total
}

// ---------------------------------------------------------------------
// Limits
// ---------------------------------------------------------------------

/// Whether a position entered at `entry` has, at `current`, lost at least
/// `pct` percent: `current <= entry * (100 - pct) / 100`.
pub open spec fn stop_loss_hit(entry: i128, current: i128, pct: u32) -> bool {
    &&& entry > 0
    &&& current < entry
    &&& current * 100 <= entry * (100 - pct)
}

/// Whether `user`'s position in `asset` has hit its stop loss at `current`.
pub open spec fn stop_loss_triggered(v: EnvView, user: UserId, asset: u32, current: i128, pct: u32) -> bool {
    match position_in(v.positions_of(user), asset) {
        Some(p) => stop_loss_hit(p.entry_price, current, pct),
        None => false,
    }
}

/// Whether the stop-loss comparison for `user`'s position stays in `i128`.
pub open spec fn stop_loss_fits(v: EnvView, user: UserId, asset: u32, current: i128, pct: u32) -> bool {
    match position_in(v.positions_of(user), asset) {
        Some(p) => fits_i128(current * 100) && fits_i128(p.entry_price * (100 - pct)),
        None => true,
    }
}

/// Whether `user`'s position in `asset` should be closed at `current_price`.
pub fn check_stop_loss(
    env: &Env,
    user: UserId,
    asset: u32,
    current_price: i128,
    config: &RiskConfig,
) -> (b: bool)
    requires
        stop_loss_fits(env@, user, asset, current_price, config.stop_loss_pct),
    ensures
        b == stop_loss_triggered(env@, user, asset, current_price, config.stop_loss_pct),
{
    match get_position(env, user, asset) {
        Some(p) => {
            let keep = 100 - (config.stop_loss_pct as i128);
            p.entry_price > 0 && current_price < p.entry_price && current_price * 100
                <= p.entry_price * keep
        },
        None => false,
    }
}

/// Number of filled trades `user` made on the current ledger day.
pub open spec fn trades_today(v: EnvView, user: UserId) -> u32 {
    let a = v.activity_of(user);
    if a.day == v.now / SECONDS_PER_DAY {
        a.count
    } else {
        0
    }
}

/// Counts `user`'s filled trades of the current ledger day.
pub fn get_trades_today(env: &Env, user: UserId) -> (n: u32)
    ensures
        n == trades_today(env@, user),
{
    let a = env.activity(user);
    if a.day == env.timestamp() / SECONDS_PER_DAY {
        a.count
    } else {
        0
    }
}

/// Value of `user`'s position in `asset` (0 when not held).
pub open spec fn asset_value(v: EnvView, user: UserId, asset: u32) -> int {
    match position_in(v.positions_of(user), asset) {
        Some(p) => position_value(v, p),
        None => 0,
    }
}

/// Whether buying `trade_value` more of `asset` keeps that asset within
/// `max_pct` percent of the portfolio. A user holding nothing of value
/// may always buy.
pub open spec fn within_position_limit(
    v: EnvView,
    user: UserId,
    asset: u32,
    trade_value: int,
    max_pct: u32,
) -> bool {
    let total = portfolio_value(v, user);
    total <= 0 || (asset_value(v, user, asset) + trade_value) * 100 <= max_pct * (total
        + trade_value)
}

/// Whether the position-limit comparison stays within `i128`.
pub open spec fn position_limit_fits(
    v: EnvView,
    user: UserId,
    asset: u32,
    trade_value: int,
    max_pct: u32,
) -> bool {
    let total = portfolio_value(v, user);
    &&& portfolio_fits(v, user)
    &&& fits_i128(asset_value(v, user, asset) + trade_value)
    &&& fits_i128((asset_value(v, user, asset) + trade_value) * 100)
    &&& fits_i128(total + trade_value)
    &&& fits_i128(max_pct * (total + trade_value))
}

/// Value of `user`'s position in `asset` (0 when not held).
pub fn asset_value_of(env: &Env, user: UserId, asset: u32) -> (value: i128)
    requires
        portfolio_fits(env@, user),
    ensures
        value == asset_value(env@, user, asset),
{
    match get_position(env, user, asset) {
        Some(p) => {
            let price = valuation_price_of(env, &p);
            proof {
                let ps = env@.positions_of(user);
                let k = asset_index(ps, asset);
                assert(has_asset(ps, asset));
                assert(ps[k] == p);
                assert(fits_i128(ps[k].amount * valuation_price(env@, ps[k])));
            }
            p.amount * price / 100
        },
        None => 0,
    }
}

/// Checks `within_position_limit`.
pub fn check_position_limit(
    env: &Env,
    user: UserId,
    asset: u32,
    trade_value: i128,
    max_pct: u32,
) -> (b: bool)
    requires
        position_limit_fits(env@, user, asset, trade_value as int, max_pct),
    ensures
        b == within_position_limit(env@, user, asset, trade_value as int, max_pct),
{
    let total = calculate_portfolio_value(env, user);
    if total <= 0 {
        return true;
    }
    let held = asset_value_of(env, user, asset);
    (held + trade_value) * 100 <= (max_pct as i128) * (total + trade_value)
}

/// Whether the position-limit comparison stays within `i128`
/// (`position_limit_fits`).
pub fn position_limit_in_range(env: &Env, user: UserId, asset: u32, trade_value: i128, max_pct: u32) -> (b: bool)
    ensures
        b == position_limit_fits(env@, user, asset, trade_value as int, max_pct),
{
    if !portfolio_in_range(env, user) {
        return false;
    }
    let total = calculate_portfolio_value(env, user);
    let held = asset_value_of(env, user, asset);
    let combined = match held.checked_add(trade_value) {
        Some(x) => x,
        None => {
            return false;
        },
    };
    if combined.checked_mul(100).is_none() {
        return false;
    }
    let grown = match total.checked_add(trade_value) {
        Some(x) => x,
        None => {
            return false;
        },
    };
    (max_pct as i128).checked_mul(grown).is_some()
}

/// Whether valuing `user`'s portfolio stays within `i128`
/// (`portfolio_fits`).
pub fn portfolio_in_range(env: &Env, user: UserId) -> (b: bool)
    ensures
        b == portfolio_fits(env@, user),
{
    let ps = env.positions(user);
    let mut total: i128 = 0;
    let mut i: usize = 0;
    assert(ps@.take(0) =~= Seq::<Position>::empty());
    while i < ps.len()
        invariant
            i <= ps@.len(),
            ps@ == env@.positions_of(user),
            total == sum_values(env@, ps@.take(i as int)),
            forall|j: int| 0 <= j < i ==> fits_i128(#[trigger] ps@[j].amount * valuation_price(env@, ps@[j])),
            forall|k: int| 0 <= k <= i ==> fits_i128(sum_values(env@, #[trigger] ps@.take(k))),
        decreases ps@.len() - i,
    {
        let p = ps[i];
        let price = valuation_price_of(env, &p);
        let product = match p.amount.checked_mul(price) {
            Some(x) => x,
            None => {
                assert(!fits_i128(ps@[i as int].amount * valuation_price(env@, ps@[i as int])));
                return false;
            },
        };
        let value = product / 100;
        assert(ps@.take(i + 1).drop_last() =~= ps@.take(i as int));
        total = match total.checked_add(value) {
            Some(t) => t,
            None => {
                assert(!fits_i128(sum_values(env@, ps@.take(i + 1))));
                return false;
            },
        };
        i = i + 1;
    }
    true
}

/// Whether the stop-loss comparison stays within `i128`
/// (`stop_loss_fits`).
pub fn stop_loss_in_range(env: &Env, user: UserId, asset: u32, current_price: i128, pct: u32) -> (b: bool)
    ensures
        b == stop_loss_fits(env@, user, asset, current_price, pct),
{
    match get_position(env, user, asset) {
        Some(p) => current_price.checked_mul(100).is_some() && p.entry_price.checked_mul(
            100 - (pct as i128),
        ).is_some(),
        None => true,
    }
}

// ---------------------------------------------------------------------
// Recording fills
// ---------------------------------------------------------------------

/// The position in `asset` after buying `exec` more at `price`, given the
/// position held before. A long position is averaged: the new entry price
/// is the cost of both parts over the new amount, rounded toward zero.
/// Otherwise the entry price becomes `price`.
pub open spec fn position_after_fill(held: Option<Position>, asset: u32, exec: i128, price: i128) -> Position {
    match held {
        Some(p) => if p.amount > 0 {
            Position {
                asset_id: asset,
                amount: (p.amount + exec) as i128,
                entry_price: tdiv(p.amount * p.entry_price + exec * price, p.amount + exec) as i128,
            }
        } else {
            Position { asset_id: asset, amount: (p.amount + exec) as i128, entry_price: price }
        },
        None => Position { asset_id: asset, amount: exec, entry_price: price },
    }
}

/// Whether the arithmetic of `position_after_fill` stays within `i128`.
pub open spec fn fill_fits(held: Option<Position>, exec: i128, price: i128) -> bool {
    match held {
        Some(p) => {
            &&& fits_i128(p.amount + exec)
            &&& p.amount > 0 ==> {
                &&& fits_i128(p.amount * p.entry_price)
                &&& fits_i128(exec * price)
                &&& fits_i128(p.amount * p.entry_price + exec * price)
            }
        },
        None => true,
    }
}

/// The ledger after `user` bought `exec` of `asset` at `price`: the
/// position is updated and the day's trade count goes up by one.
pub open spec fn after_fill(v: EnvView, user: UserId, asset: u32, exec: i128, price: i128) -> EnvView {
    EnvView {
        positions: v.positions.insert(
            user,
            set_position(
                v.positions_of(user),
                position_after_fill(position_in(v.positions_of(user), asset), asset, exec, price),
            ),
        ),
        activity: v.activity.insert(
            user,
            DailyActivity { day: v.now / SECONDS_PER_DAY, count: (trades_today(v, user) + 1) as u32 },
        ),
        ..v
    }
}

/// Records that `user` bought `exec` of `asset` at `price` on the day
/// whose trade count so far is `today`.
pub fn record_fill(env: &mut Env, user: UserId, asset: u32, exec: i128, price: i128, today: u32)
    requires
        exec > 0,
        today == trades_today(old(env)@, user),
        today < u32::MAX,
        fill_fits(position_in(old(env)@.positions_of(user), asset), exec, price),
    ensures
        final(env)@ == after_fill(old(env)@, user, asset, exec, price),
{
    let ghost v = env@;
    let held = get_position(env, user, asset);
    let p = match held {
        Some(p) => if p.amount > 0 {
            let amount = p.amount + exec;
            let cost = p.amount * p.entry_price + exec * price;
            proof {
                lemma_tdiv_bounded(cost as int, amount as int);
            }
            Position { asset_id: asset, amount, entry_price: cost / amount }
        } else {
            Position { asset_id: asset, amount: p.amount + exec, entry_price: price }
        },
        None => Position { asset_id: asset, amount: exec, entry_price: price },
    };
    assert(p == position_after_fill(position_in(v.positions_of(user), asset), asset, exec, price));
    update_position(env, user, asset, p.amount, p.entry_price);
    let day = env.timestamp() / SECONDS_PER_DAY;
    env.put_activity(user, DailyActivity { day, count: today + 1 });
    assert(env@ == after_fill(v, user, asset, exec, price));
}

/// Whether updating `user`'s position in `asset` for a fill stays within
/// `i128` (`fill_fits`).
pub fn fill_in_range(env: &Env, user: UserId, asset: u32, exec: i128, price: i128) -> (b: bool)
    ensures
        b == fill_fits(position_in(env@.positions_of(user), asset), exec, price),
{
    match get_position(env, user, asset) {
        Some(p) => {
            if p.amount.checked_add(exec).is_none() {
                return false;
            }
            if p.amount <= 0 {
                return true;
            }
            let cost = match p.amount.checked_mul(p.entry_price) {
                Some(x) => x,
                None => {
                    return false;
                },
            };
            let spend = match exec.checked_mul(price) {
                Some(x) => x,
                None => {
                    return false;
                },
            };
            cost.checked_add(spend).is_some()
        },
        None => true,
    }
}

} // verus!
