use vstd::prelude::*;

use crate::env::{Env, EnvView};
use crate::types::{Signal, UserId};

verus! {

/// Stores a signal under its id, replacing any earlier one.
pub fn set_signal(env: &mut Env, signal_id: u64, signal: &Signal)
    ensures
        final(env)@ == (EnvView { signals: old(env)@.signals.insert(signal_id, *signal), ..old(env)@ }),
{
    env.put_signal(signal_id, *signal);
}

/// The signal stored under `signal_id`, if any.
pub fn get_signal(env: &Env, signal_id: u64) -> (s: Option<Signal>)
    ensures
        s == env@.signal(signal_id),
{
    env.signal(signal_id)
}

/// Grants `user` unlimited, non-expiring permission to trade.
pub fn authorize_user(env: &mut Env, user: UserId)
    ensures
        final(env)@ == (EnvView { approved: old(env)@.approved.insert(user), ..old(env)@ }),
{
    env.approve(user);
}

/// Whether `user` holds the unlimited permission of `authorize_user`.
pub fn is_authorized(env: &Env, user: UserId) -> (b: bool)
    ensures
        b == env@.approved.contains(user),
{
    env.is_approved(user)
}

} // verus!
