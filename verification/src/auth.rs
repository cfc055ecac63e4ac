use vstd::prelude::*;

use crate::env::{Env, EnvView};
use crate::types::{AuthConfig, UserId, SECONDS_PER_DAY};

verus! {

/// The permission that a grant of `max_trade_amount` for `duration_days`
/// days, made at ledger time `now`, gives.
pub open spec fn granted_config(now: u64, max_trade_amount: i128, duration_days: u32) -> AuthConfig {
    AuthConfig {
        authorized: true,
        max_trade_amount,
        expires_at: (now + duration_days * SECONDS_PER_DAY) as u64,
    }
}

/// Whether a grant made at `now` for `duration_days` days has an expiry
/// that a ledger time can hold.
pub open spec fn grant_fits(now: u64, duration_days: u32) -> bool {
    now + duration_days * SECONDS_PER_DAY <= u64::MAX
}

/// The ledger after `user` was granted `max_trade_amount` for
/// `duration_days` days.
pub open spec fn after_grant(v: EnvView, user: UserId, max_trade_amount: i128, duration_days: u32) -> EnvView {
    EnvView {
        auth_configs: v.auth_configs.insert(user, granted_config(v.now, max_trade_amount, duration_days)),
        ..v
    }
}

/// The ledger after `user`'s grant was withdrawn.
pub open spec fn after_revoke(v: EnvView, user: UserId) -> EnvView {
    EnvView { auth_configs: v.auth_configs.remove(user), ..v }
}

/// Whether a permission allows a trade of `amount` at ledger time `now`:
/// it is in force, has not expired, and covers the amount.
pub open spec fn config_allows(c: AuthConfig, now: u64, amount: i128) -> bool {
    &&& c.authorized
    &&& now <= c.expires_at
    &&& amount <= c.max_trade_amount
}

/// Whether the contract may trade `amount` for `user`: the user holds the
/// unlimited permission, or a granted permission that allows the trade.
pub open spec fn trade_authorized(v: EnvView, user: UserId, amount: i128) -> bool {
    ||| v.approved.contains(user)
    ||| match v.auth_config(user) {
        Some(c) => config_allows(c, v.now, amount),
        None => false,
    }
}

/// Checks `trade_authorized` on the ledger.
pub fn is_trade_authorized(env: &Env, user: UserId, amount: i128) -> (b: bool)
    ensures
        b == trade_authorized(env@, user, amount),
{
    if env.is_approved(user) {
        return true;
    }
    match env.auth_config(user) {
        Some(c) => c.authorized && env.timestamp() <= c.expires_at && amount <= c.max_trade_amount,
        None => false,
    }
}

} // verus!
