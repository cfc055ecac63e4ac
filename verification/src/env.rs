use std::collections::HashMap;
use std::collections::HashSet;

use vstd::prelude::*;

use crate::strategies::dca::{
    interval_of, strategy_consistent, DCAFrequency, DCAPurchase, DCAStatus, DCAStrategy, DCAStrategyView,
};
use crate::types::{copy_vec, AuthConfig, DailyActivity, Position, RiskConfig, Signal, Trade, UserId};

verus! {

broadcast use vstd::std_specs::hash::group_hash_axioms;

/// The contract's view of the ledger: the current ledger time and every
/// record the contract reads or writes, keyed as the contract keys them.
///
/// Account balances, pool liquidity and market prices are written by the
/// surrounding chain (token contracts, the exchange, the price oracle); the
/// contract only reads them.
///
/// Every `Env` satisfies `EnvView::wf`: it is the type's invariant, kept by
/// each operation, so no operation asks its caller for it.
pub struct Env {
    now: u64,
    signals: HashMap<u64, Signal>,
    approved: HashSet<UserId>,
    auth_configs: HashMap<UserId, AuthConfig>,
    risk_configs: HashMap<UserId, RiskConfig>,
    balances: HashMap<UserId, i128>,
    liquidity: HashMap<u64, i128>,
    market_prices: HashMap<u64, i128>,
    asset_prices: HashMap<u32, i128>,
    histories: HashMap<UserId, Vec<Trade>>,
    positions: PositionTable,
    activity: HashMap<UserId, DailyActivity>,
    strategies: StrategyList,
}

/// Every user's open positions, keyed by user (the ledger's invariant keeps
/// one entry per asset in each list).
struct PositionTable {
    map: HashMap<UserId, Vec<Position>>,
}

impl PositionTable {
    spec fn contents(&self) -> Map<UserId, Seq<Position>> {
        self.map@.map_values(|v: Vec<Position>| v@)
    }

    fn new() -> (t: Self)
        ensures
            t.contents() == Map::<UserId, Seq<Position>>::empty(),
    {
        let t = PositionTable { map: HashMap::new() };
        assert(t.contents() =~= Map::<UserId, Seq<Position>>::empty());
        t
    }

    fn get(&self, user: UserId) -> (ps: Vec<Position>)
        ensures
            ps@ == (if self.contents().contains_key(user) {
                self.contents()[user]
            } else {
                Seq::empty()
            }),
    {
        match self.map.get(&user) {
            Some(ps) => copy_vec(ps),
            None => Vec::new(),
        }
    }

    fn put(&mut self, user: UserId, ps: Vec<Position>)
        ensures
            final(self).contents() == old(self).contents().insert(user, ps@),
    {
        let ghost old_map = self.map@;
        let ghost psv = ps@;
        let mut m = HashMap::new();
        std::mem::swap(&mut m, &mut self.map);
        m.insert(user, ps);
        assert(m@.map_values(|v: Vec<Position>| v@) =~= old_map.map_values(
            |v: Vec<Position>| v@,
        ).insert(user, psv));
        self.map = m;
    }
}

/// The stored strategies in creation order (the ledger's invariant keeps
/// strategy `i` at index `i`).
struct StrategyList {
    items: Vec<DCAStrategy>,
}

impl StrategyList {
    spec fn contents(&self) -> Seq<DCAStrategyView> {
        self.items@.map_values(|s: DCAStrategy| s@)
    }

    fn new() -> (l: Self)
        ensures
            l.contents() == Seq::<DCAStrategyView>::empty(),
    {
        let l = StrategyList { items: Vec::new() };
        assert(l.contents() =~= Seq::<DCAStrategyView>::empty());
        l
    }
}

/// The mathematical model of an `Env`.
pub struct EnvView {
    pub now: u64,
    pub signals: Map<u64, Signal>,
    pub approved: Set<UserId>,
    pub auth_configs: Map<UserId, AuthConfig>,
    pub risk_configs: Map<UserId, RiskConfig>,
    pub balances: Map<UserId, i128>,
    pub liquidity: Map<u64, i128>,
    pub market_prices: Map<u64, i128>,
    pub asset_prices: Map<u32, i128>,
    pub histories: Map<UserId, Seq<Trade>>,
    pub positions: Map<UserId, Seq<Position>>,
    pub activity: Map<UserId, DailyActivity>,
    pub strategies: Seq<DCAStrategyView>,
}

pub open spec fn opt_get<K, V>(m: Map<K, V>, k: K) -> Option<V> {
    if m.contains_key(k) {
        Some(m[k])
    } else {
        None
    }
}

/// Whether no two entries of a position list are for the same asset.
pub open spec fn assets_distinct(ps: Seq<Position>) -> bool {
    forall|i: int, j: int|
        0 <= i < ps.len() && 0 <= j < ps.len() && i != j ==> #[trigger] ps[i].asset_id
            != #[trigger] ps[j].asset_id
}

/// Whether every user's position list holds each asset at most once.
pub open spec fn one_position_per_asset(m: Map<UserId, Seq<Position>>) -> bool {
    forall|u: UserId| #[trigger] m.contains_key(u) ==> assets_distinct(m[u])
}

impl EnvView {
    pub open spec fn signal(self, id: u64) -> Option<Signal> {
        opt_get(self.signals, id)
    }

    pub open spec fn auth_config(self, user: UserId) -> Option<AuthConfig> {
        opt_get(self.auth_configs, user)
    }

    pub open spec fn stored_risk_config(self, user: UserId) -> Option<RiskConfig> {
        opt_get(self.risk_configs, user)
    }

    /// Balance of a user; an account never funded holds 0.
    pub open spec fn balance(self, user: UserId) -> i128 {
        if self.balances.contains_key(user) {
            self.balances[user]
        } else {
            0
        }
    }

    /// Liquidity available for a signal's pair; none recorded means none.
    pub open spec fn liquidity_of(self, signal_id: u64) -> i128 {
        if self.liquidity.contains_key(signal_id) {
            self.liquidity[signal_id]
        } else {
            0
        }
    }

    pub open spec fn market_price(self, signal_id: u64) -> Option<i128> {
        opt_get(self.market_prices, signal_id)
    }

    pub open spec fn asset_price(self, asset: u32) -> Option<i128> {
        opt_get(self.asset_prices, asset)
    }

    pub open spec fn history(self, user: UserId) -> Seq<Trade> {
        if self.histories.contains_key(user) {
            self.histories[user]
        } else {
            Seq::empty()
        }
    }

    pub open spec fn positions_of(self, user: UserId) -> Seq<Position> {
        if self.positions.contains_key(user) {
            self.positions[user]
        } else {
            Seq::empty()
        }
    }

    pub open spec fn activity_of(self, user: UserId) -> DailyActivity {
        if self.activity.contains_key(user) {
            self.activity[user]
        } else {
            DailyActivity { day: 0, count: 0 }
        }
    }

    /// The invariant every reachable ledger keeps: each user holds at most
    /// one position per asset, strategy `i` is stored under id `i`, and each
    /// strategy is consistent with its purchase log.
    pub open spec fn wf(self) -> bool {
        &&& one_position_per_asset(self.positions)
        &&& forall|i: int| 0 <= i < self.strategies.len() ==> #[trigger] self.strategies[i].id == i
        &&& forall|i: int| 0 <= i < self.strategies.len() ==> strategy_consistent(#[trigger] self.strategies[i])
    }

    pub proof fn positions_of_distinct(self, user: UserId)
        requires
            self.wf(),
        ensures
            assets_distinct(self.positions_of(user)),
    {
        if self.positions.contains_key(user) {
            assert(assets_distinct(self.positions[user]));
        }
    }
}

impl Env {
    /// Every ledger value keeps `wf`; `use_type_invariant` hands it to callers.
    #[verifier::type_invariant]
    pub open spec fn well_formed(&self) -> bool {
        self@.wf()
    }
}

impl View for Env {
    type V = EnvView;

    closed spec fn view(&self) -> EnvView {
        EnvView {
            now: self.now,
            signals: self.signals@,
            approved: self.approved@,
            auth_configs: self.auth_configs@,
            risk_configs: self.risk_configs@,
            balances: self.balances@,
            liquidity: self.liquidity@,
            market_prices: self.market_prices@,
            asset_prices: self.asset_prices@,
            histories: self.histories@.map_values(|v: Vec<Trade>| v@),
            positions: self.positions.contents(),
            activity: self.activity@,
            strategies: self.strategies.contents(),
        }
    }
}

impl Env {
    /// An empty ledger at time `now`.
    pub fn new(now: u64) -> (env: Env)
        ensures
            env@.now == now,
            env@.signals == Map::<u64, Signal>::empty(),
            env@.approved == Set::<UserId>::empty(),
            env@.auth_configs == Map::<UserId, AuthConfig>::empty(),
            env@.risk_configs == Map::<UserId, RiskConfig>::empty(),
            env@.balances == Map::<UserId, i128>::empty(),
            env@.liquidity == Map::<u64, i128>::empty(),
            env@.market_prices == Map::<u64, i128>::empty(),
            env@.asset_prices == Map::<u32, i128>::empty(),
            env@.histories == Map::<UserId, Seq<Trade>>::empty(),
            env@.positions == Map::<UserId, Seq<Position>>::empty(),
            env@.activity == Map::<UserId, DailyActivity>::empty(),
            env@.strategies == Seq::<DCAStrategyView>::empty(),
            env@.wf(),
    {
        let env = Env {
            now,
            signals: HashMap::new(),
            approved: HashSet::new(),
            auth_configs: HashMap::new(),
            risk_configs: HashMap::new(),
            balances: HashMap::new(),
            liquidity: HashMap::new(),
            market_prices: HashMap::new(),
            asset_prices: HashMap::new(),
            histories: HashMap::new(),
            positions: PositionTable::new(),
            activity: HashMap::new(),
            strategies: StrategyList::new(),
        };
        assert(env@.histories =~= Map::<UserId, Seq<Trade>>::empty());
        assert(env@.strategies =~= Seq::<DCAStrategyView>::empty());
        env
    }

    /// The current ledger time.
    pub fn timestamp(&self) -> (t: u64)
        ensures
            t == self@.now,
    {
        self.now
    }

    /// Moves the ledger clock.
    pub fn set_timestamp(&mut self, now: u64)
        ensures
            final(self)@ == (EnvView { now, ..old(self)@ }),
    {
        proof { use_type_invariant(&*self); }
        self.now = now;
    }

    pub fn signal(&self, id: u64) -> (s: Option<Signal>)
        ensures
            s == self@.signal(id),
    {
        match self.signals.get(&id) {
            Some(s) => Some(*s),
            None => None,
        }
    }

    pub fn put_signal(&mut self, id: u64, s: Signal)
        ensures
            final(self)@ == (EnvView { signals: old(self)@.signals.insert(id, s), ..old(self)@ }),
    {
        proof { use_type_invariant(&*self); }
        let mut m = HashMap::new();
        std::mem::swap(&mut m, &mut self.signals);
        m.insert(id, s);
        self.signals = m;
    }

    pub fn is_approved(&self, user: UserId) -> (b: bool)
        ensures
            b == self@.approved.contains(user),
    {
        self.approved.contains(&user)
    }

    pub fn approve(&mut self, user: UserId)
        ensures
            final(self)@ == (EnvView { approved: old(self)@.approved.insert(user), ..old(self)@ }),
    {
        proof { use_type_invariant(&*self); }
        let mut m = HashSet::new();
        std::mem::swap(&mut m, &mut self.approved);
        m.insert(user);
        self.approved = m;
    }

    pub fn auth_config(&self, user: UserId) -> (c: Option<AuthConfig>)
        ensures
            c == self@.auth_config(user),
    {
        match self.auth_configs.get(&user) {
            Some(c) => Some(*c),
            None => None,
        }
    }

    pub fn put_auth_config(&mut self, user: UserId, c: AuthConfig)
        ensures
            final(self)@ == (EnvView {
                auth_configs: old(self)@.auth_configs.insert(user, c),
                ..old(self)@
            }),
    {
        proof { use_type_invariant(&*self); }
        let mut m = HashMap::new();
        std::mem::swap(&mut m, &mut self.auth_configs);
        m.insert(user, c);
        self.auth_configs = m;
    }

    pub fn remove_auth_config(&mut self, user: UserId)
        ensures
            final(self)@ == (EnvView {
                auth_configs: old(self)@.auth_configs.remove(user),
                ..old(self)@
            }),
    {
        proof { use_type_invariant(&*self); }
        let mut m = HashMap::new();
        std::mem::swap(&mut m, &mut self.auth_configs);
        m.remove(&user);
        self.auth_configs = m;
    }

    pub fn stored_risk_config(&self, user: UserId) -> (c: Option<RiskConfig>)
        ensures
            c == self@.stored_risk_config(user),
    {
        match self.risk_configs.get(&user) {
            Some(c) => Some(*c),
            None => None,
        }
    }

    pub fn put_risk_config(&mut self, user: UserId, c: RiskConfig)
        ensures
            final(self)@ == (EnvView {
                risk_configs: old(self)@.risk_configs.insert(user, c),
                ..old(self)@
            }),
    {
        proof { use_type_invariant(&*self); }
        let mut m = HashMap::new();
        std::mem::swap(&mut m, &mut self.risk_configs);
        m.insert(user, c);
        self.risk_configs = m;
    }

    pub fn balance(&self, user: UserId) -> (b: i128)
        ensures
            b == self@.balance(user),
    {
        match self.balances.get(&user) {
            Some(b) => *b,
            None => 0,
        }
    }

    /// Records the balance that the token contract reports for `user`.
    pub fn set_balance(&mut self, user: UserId, amount: i128)
        ensures
            final(self)@ == (EnvView { balances: old(self)@.balances.insert(user, amount), ..old(self)@ }),
    {
        proof { use_type_invariant(&*self); }
        let mut m = HashMap::new();
        std::mem::swap(&mut m, &mut self.balances);
        m.insert(user, amount);
        self.balances = m;
    }

    pub fn liquidity(&self, signal_id: u64) -> (l: i128)
        ensures
            l == self@.liquidity_of(signal_id),
    {
        match self.liquidity.get(&signal_id) {
            Some(l) => *l,
            None => 0,
        }
    }

    /// Records the liquidity that the exchange reports for a signal's pair.
    pub fn set_liquidity(&mut self, signal_id: u64, amount: i128)
        ensures
            final(self)@ == (EnvView {
                liquidity: old(self)@.liquidity.insert(signal_id, amount),
                ..old(self)@
            }),
    {
        proof { use_type_invariant(&*self); }
        let mut m = HashMap::new();
        std::mem::swap(&mut m, &mut self.liquidity);
        m.insert(signal_id, amount);
        self.liquidity = m;
    }

    pub fn market_price(&self, signal_id: u64) -> (p: Option<i128>)
        ensures
            p == self@.market_price(signal_id),
    {
        match self.market_prices.get(&signal_id) {
            Some(p) => Some(*p),
            None => None,
        }
    }

    /// Records the market price that the exchange quotes for a signal's pair.
    pub fn set_market_price(&mut self, signal_id: u64, price: i128)
        ensures
            final(self)@ == (EnvView {
                market_prices: old(self)@.market_prices.insert(signal_id, price),
                ..old(self)@
            }),
    {
        proof { use_type_invariant(&*self); }
        let mut m = HashMap::new();
        std::mem::swap(&mut m, &mut self.market_prices);
        m.insert(signal_id, price);
        self.market_prices = m;
    }

    pub fn asset_price(&self, asset: u32) -> (p: Option<i128>)
        ensures
            p == self@.asset_price(asset),
    {
        match self.asset_prices.get(&asset) {
            Some(p) => Some(*p),
            None => None,
        }
    }

    pub fn put_asset_price(&mut self, asset: u32, price: i128)
        ensures
            final(self)@ == (EnvView {
                asset_prices: old(self)@.asset_prices.insert(asset, price),
                ..old(self)@
            }),
    {
        proof { use_type_invariant(&*self); }
        let mut m = HashMap::new();
        std::mem::swap(&mut m, &mut self.asset_prices);
        m.insert(asset, price);
        self.asset_prices = m;
    }

    /// A copy of a user's trade log.
    pub fn history(&self, user: UserId) -> (h: Vec<Trade>)
        ensures
            h@ == self@.history(user),
    {
        match self.histories.get(&user) {
            Some(h) => copy_vec(h),
            None => Vec::new(),
        }
    }

    /// Appends a trade to a user's log.
    pub fn push_trade(&mut self, user: UserId, t: Trade)
        ensures
            final(self)@ == (EnvView {
                histories: old(self)@.histories.insert(user, old(self)@.history(user).push(t)),
                ..old(self)@
            }),
    {
        proof { use_type_invariant(&*self); }
        let ghost old_map = self.histories@;
        let mut m = HashMap::new();
        std::mem::swap(&mut m, &mut self.histories);
        let mut h = match m.remove(&user) {
            Some(h) => h,
            None => Vec::new(),
        };
        h.push(t);
        m.insert(user, h);
        self.histories = m;
        assert(self.histories@.map_values(|v: Vec<Trade>| v@) =~= old_map.map_values(
            |v: Vec<Trade>| v@,
        ).insert(user, old(self)@.history(user).push(t)));
    }

    /// A copy of a user's positions.
    pub fn positions(&self, user: UserId) -> (ps: Vec<Position>)
        ensures
            ps@ == self@.positions_of(user),
    {
        self.positions.get(user)
    }

    /// Replaces a user's positions.
    pub fn put_positions(&mut self, user: UserId, ps: Vec<Position>)
        requires
            assets_distinct(ps@),
        ensures
            final(self)@ == (EnvView { positions: old(self)@.positions.insert(user, ps@), ..old(self)@ }),
    {
        proof { use_type_invariant(&*self); }
        let mut t = PositionTable::new();
        std::mem::swap(&mut t, &mut self.positions);
        t.put(user, ps);
        self.positions = t;
    }

    pub fn activity(&self, user: UserId) -> (a: DailyActivity)
        ensures
            a == self@.activity_of(user),
    {
        match self.activity.get(&user) {
            Some(a) => *a,
            None => DailyActivity { day: 0, count: 0 },
        }
    }

    pub fn put_activity(&mut self, user: UserId, a: DailyActivity)
        ensures
            final(self)@ == (EnvView { activity: old(self)@.activity.insert(user, a), ..old(self)@ }),
    {
        proof { use_type_invariant(&*self); }
        let mut m = HashMap::new();
        std::mem::swap(&mut m, &mut self.activity);
        m.insert(user, a);
        self.activity = m;
    }
    pub fn strategy_count(&self) -> (n: usize)
        ensures
            n == self@.strategies.len(),
    {
        self.strategies.items.len()
    }

    pub fn strategy(&self, i: usize) -> (s: &DCAStrategy)
        requires
            i < self@.strategies.len(),
        ensures
            s@ == self@.strategies[i as int],
    {
        &self.strategies.items[i]
    }

    /// Stores a new strategy under the next free id.
    pub fn push_strategy(&mut self, s: DCAStrategy)
        requires
            s.id == old(self)@.strategies.len(),
            strategy_consistent(s@),
        ensures
            final(self)@ == (EnvView { strategies: old(self)@.strategies.push(s@), ..old(self)@ }),
    {
        proof { use_type_invariant(&*self); }
        let ghost sv = s@;
        let mut l = StrategyList::new();
        std::mem::swap(&mut l, &mut self.strategies);
        l.items.push(s);
        assert(l.contents() =~= old(self)@.strategies.push(sv));
        self.strategies = l;
    }

    pub(crate) fn set_strategy_status(&mut self, i: usize, status: DCAStatus)
        requires
            i < old(self)@.strategies.len(),
        ensures
            final(self)@ == (EnvView {
                strategies: old(self)@.strategies.update(
                    i as int,
                    DCAStrategyView { status, ..old(self)@.strategies[i as int] },
                ),
                ..old(self)@
            }),
    {
        proof { use_type_invariant(&*self); }
        let mut l = StrategyList::new();
        std::mem::swap(&mut l, &mut self.strategies);
        l.items[i].status = status;
        assert(l.contents() =~= old(self)@.strategies.update(
            i as int,
            DCAStrategyView { status, ..old(self)@.strategies[i as int] },
        ));
        self.strategies = l;
    }

    pub(crate) fn set_strategy_schedule(&mut self, i: usize, purchase_amount: i128, frequency: DCAFrequency)
        requires
            i < old(self)@.strategies.len(),
            purchase_amount > 0,
            interval_of(frequency) > 0,
        ensures
            final(self)@ == (EnvView {
                strategies: old(self)@.strategies.update(
                    i as int,
                    DCAStrategyView { purchase_amount, frequency, ..old(self)@.strategies[i as int] },
                ),
                ..old(self)@
            }),
    {
        proof { use_type_invariant(&*self); }
        let mut l = StrategyList::new();
        std::mem::swap(&mut l, &mut self.strategies);
        l.items[i].purchase_amount = purchase_amount;
        l.items[i].frequency = frequency;
        assert(l.contents() =~= old(self)@.strategies.update(
            i as int,
            DCAStrategyView { purchase_amount, frequency, ..old(self)@.strategies[i as int] },
        ));
        self.strategies = l;
    }

    /// Appends a purchase to strategy `i` and sets its running totals.
    pub(crate) fn record_strategy_purchase(
        &mut self,
        i: usize,
        p: DCAPurchase,
        total_invested: i128,
        total_acquired: i128,
        average_entry_price: i128,
    )
        requires
            i < old(self)@.strategies.len(),
            strategy_consistent(DCAStrategyView {
                purchases: old(self)@.strategies[i as int].purchases.push(p),
                last_purchase_time: p.timestamp,
                total_invested,
                total_acquired,
                average_entry_price,
                ..old(self)@.strategies[i as int]
            }),
        ensures
            final(self)@ == (EnvView {
                strategies: old(self)@.strategies.update(
                    i as int,
                    DCAStrategyView {
                        purchases: old(self)@.strategies[i as int].purchases.push(p),
                        last_purchase_time: p.timestamp,
                        total_invested,
                        total_acquired,
                        average_entry_price,
                        ..old(self)@.strategies[i as int]
                    },
                ),
                ..old(self)@
            }),
    {
        proof { use_type_invariant(&*self); }
        let mut l = StrategyList::new();
        std::mem::swap(&mut l, &mut self.strategies);
        l.items[i].purchases.push(p);
        l.items[i].last_purchase_time = p.timestamp;
        l.items[i].total_invested = total_invested;
        l.items[i].total_acquired = total_acquired;
        l.items[i].average_entry_price = average_entry_price;
        assert(l.contents() =~= old(self)@.strategies.update(
            i as int,
            DCAStrategyView {
                purchases: old(self)@.strategies[i as int].purchases.push(p),
                last_purchase_time: p.timestamp,
                total_invested,
                total_acquired,
                average_entry_price,
                ..old(self)@.strategies[i as int]
            },
        ));
        self.strategies = l;
    }
}

} // verus!
