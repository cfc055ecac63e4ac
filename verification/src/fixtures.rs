use vstd::prelude::*;

use crate::env::Env;
use crate::strategies::dca::DCAStrategyView;
use crate::types::{AuthConfig, DailyActivity, Position, RiskConfig, Signal, Trade, UserId};

verus! {

/// Ledger time at which the standard scenario starts.
pub const SETUP_TIME: u64 = 1000;

/// The ledger of the standard scenario: nothing recorded yet, ledger time
/// `SETUP_TIME`.
pub fn setup_env() -> (env: Env)
    ensures
        env@.now == SETUP_TIME,
        env@.signals == Map::<u64, Signal>::empty(),
        env@.approved == Set::<UserId>::empty(),
        env@.auth_configs == Map::<UserId, AuthConfig>::empty(),
        env@.risk_configs == Map::<UserId, RiskConfig>::empty(),
        env@.balances == Map::<UserId, i128>::empty(),
        env@.liquidity == Map::<u64, i128>::empty(),
        env@.market_prices == Map::<u64, i128>::empty(),
        env@.asset_prices == Map::<u32, i128>::empty(),
        env@.histories == Map::<UserId, Seq<Trade>>::empty(),
        env@.positions == Map::<UserId, Seq<Position>>::empty(),
        env@.activity == Map::<UserId, DailyActivity>::empty(),
        env@.strategies == Seq::<DCAStrategyView>::empty(),
        env@.wf(),
{
    Env::new(SETUP_TIME)
}

/// The signal of the standard scenario: asset 1 at price 100, valid until
/// `expiry`.
pub fn setup_signal(env: &Env, signal_id: u64, expiry: u64) -> (s: Signal)
    ensures
        s == (Signal { signal_id, price: 100, expiry, base_asset: 1 }),
{
    Signal { signal_id, price: 100, expiry, base_asset: 1 }
}

} // verus!
