use auto_trade::contract::AutoTradeContract;
use auto_trade::fixtures::{setup_env, setup_signal};
use auto_trade::errors::AutoTradeError;
use auto_trade::risk;
use auto_trade::storage;
use auto_trade::types::{OrderType, RiskConfig, TradeStatus, UserId};

const USER: UserId = 7;

#[test]
fn test_execute_trade_invalid_amount() {
    let mut env = setup_env();
    let user = USER;

    let res = AutoTradeContract::execute_trade(&mut env, user, 1, OrderType::Market, 0);

    assert_eq!(res, Err(AutoTradeError::InvalidAmount));
}

#[test]
fn test_execute_trade_signal_not_found() {
    let mut env = setup_env();
    let user = USER;

    let res = AutoTradeContract::execute_trade(&mut env, user, 999, OrderType::Market, 100);

    assert_eq!(res, Err(AutoTradeError::SignalNotFound));
}

#[test]
fn test_execute_trade_signal_expired() {
    let mut env = setup_env();
    let user = USER;
    let signal_id = 1;
    let signal = setup_signal(&env, signal_id, env.timestamp() - 1);

    storage::set_signal(&mut env, signal_id, &signal);
    let res = AutoTradeContract::execute_trade(&mut env, user, signal_id, OrderType::Market, 100);

    assert_eq!(res, Err(AutoTradeError::SignalExpired));
}

#[test]
fn test_execute_trade_unauthorized() {
    let mut env = setup_env();
    let user = USER;
    let signal_id = 1;
    let signal = setup_signal(&env, signal_id, env.timestamp() + 1000);

    storage::set_signal(&mut env, signal_id, &signal);
    let res = AutoTradeContract::execute_trade(&mut env, user, signal_id, OrderType::Market, 100);

    assert_eq!(res, Err(AutoTradeError::Unauthorized));
}

#[test]
fn test_execute_trade_insufficient_balance() {
    let mut env = setup_env();
    let user = USER;
    let signal_id = 1;
    let signal = setup_signal(&env, signal_id, env.timestamp() + 1000);

    storage::set_signal(&mut env, signal_id, &signal);
    storage::authorize_user(&mut env, user);
    env.set_balance(user, 50);

    let res = AutoTradeContract::execute_trade(&mut env, user, signal_id, OrderType::Market, 100);

    assert_eq!(res, Err(AutoTradeError::InsufficientBalance));
}

#[test]
fn test_execute_trade_market_full_fill() {
    let mut env = setup_env();
    let user = USER;
    let signal_id = 1;
    let signal = setup_signal(&env, signal_id, env.timestamp() + 1000);

    storage::set_signal(&mut env, signal_id, &signal);
    storage::authorize_user(&mut env, user);
    env.set_balance(user, 500);
    env.set_liquidity(signal_id, 500);

    let res = AutoTradeContract::execute_trade(&mut env, user, signal_id, OrderType::Market, 400)
        .unwrap();

    assert_eq!(res.trade.executed_amount, 400);
    assert_eq!(res.trade.executed_price, 100);
    assert_eq!(res.trade.status, TradeStatus::Filled);
}

#[test]
fn test_execute_trade_market_partial_fill() {
    let mut env = setup_env();
    let user = USER;
    let signal_id = 2;
    let signal = setup_signal(&env, signal_id, env.timestamp() + 1000);

    storage::set_signal(&mut env, signal_id, &signal);
    storage::authorize_user(&mut env, user);
    env.set_balance(user, 500);
    env.set_liquidity(signal_id, 100);

    let res = AutoTradeContract::execute_trade(&mut env, user, signal_id, OrderType::Market, 300)
        .unwrap();

    assert_eq!(res.trade.executed_amount, 100);
    assert_eq!(res.trade.executed_price, 100);
    assert_eq!(res.trade.status, TradeStatus::PartiallyFilled);
}

#[test]
fn test_execute_trade_limit_filled() {
    let mut env = setup_env();
    let user = USER;
    let signal_id = 3;
    let signal = setup_signal(&env, signal_id, env.timestamp() + 1000);

    storage::set_signal(&mut env, signal_id, &signal);
    storage::authorize_user(&mut env, user);
    env.set_balance(user, 500);
    env.set_market_price(signal_id, 90);

    let res = AutoTradeContract::execute_trade(&mut env, user, signal_id, OrderType::Limit, 200)
        .unwrap();

    assert_eq!(res.trade.executed_amount, 200);
    assert_eq!(res.trade.executed_price, 100);
    assert_eq!(res.trade.status, TradeStatus::Filled);
}

#[test]
fn test_execute_trade_limit_not_filled() {
    let mut env = setup_env();
    let user = USER;
    let signal_id = 4;
    let signal = setup_signal(&env, signal_id, env.timestamp() + 1000);

    storage::set_signal(&mut env, signal_id, &signal);
    storage::authorize_user(&mut env, user);
    env.set_balance(user, 500);
    env.set_market_price(signal_id, 150);

    let res = AutoTradeContract::execute_trade(&mut env, user, signal_id, OrderType::Limit, 200)
        .unwrap();

    assert_eq!(res.trade.executed_amount, 0);
    assert_eq!(res.trade.executed_price, 0);
    assert_eq!(res.trade.status, TradeStatus::Failed);
}

#[test]
fn test_get_trade_existing() {
    let mut env = setup_env();
    let user = USER;
    let signal_id = 1;
    let signal = setup_signal(&env, signal_id, env.timestamp() + 1000);

    storage::set_signal(&mut env, signal_id, &signal);
    storage::authorize_user(&mut env, user);
    env.set_balance(user, 500);
    env.set_liquidity(signal_id, 500);

    let _ = AutoTradeContract::execute_trade(&mut env, user, signal_id, OrderType::Market, 400)
        .unwrap();

    let trade = AutoTradeContract::get_trade(&env, user, signal_id).unwrap();

    assert_eq!(trade.executed_amount, 400);
}

#[test]
fn test_get_trade_non_existing() {
    let env = setup_env();
    let user = USER;
    let signal_id = 999;

    let trade = AutoTradeContract::get_trade(&env, user, signal_id);

    assert!(trade.is_none());
}

#[test]
fn test_get_default_risk_config() {
    let env = setup_env();
    let user = USER;

    let config = AutoTradeContract::get_risk_config(&env, user);

    assert_eq!(config.max_position_pct, 20);
    assert_eq!(config.daily_trade_limit, 10);
    assert_eq!(config.stop_loss_pct, 15);
}

#[test]
fn test_set_custom_risk_config() {
    let mut env = setup_env();
    let user = USER;

    let custom_config = RiskConfig {
        max_position_pct: 30,
        daily_trade_limit: 15,
        stop_loss_pct: 10,
    };

    AutoTradeContract::set_risk_config(&mut env, user, custom_config.clone());

    let retrieved = AutoTradeContract::get_risk_config(&env, user);
    assert_eq!(retrieved, custom_config);
}

#[test]
fn test_position_limit_allows_first_trade() {
    let mut env = setup_env();
    let user = USER;
    let signal_id = 1;
    let signal = setup_signal(&env, signal_id, env.timestamp() + 1000);

    storage::set_signal(&mut env, signal_id, &signal);
    storage::authorize_user(&mut env, user);
    env.set_balance(user, 1000);
    env.set_liquidity(signal_id, 1000);

    // First trade should be allowed
    let res = AutoTradeContract::execute_trade(&mut env, user, signal_id, OrderType::Market, 1000);

    assert!(res.is_ok());
}

#[test]
fn test_get_user_positions() {
    let mut env = setup_env();
    let user = USER;
    let signal_id = 1;
    let signal = setup_signal(&env, signal_id, env.timestamp() + 1000);

    storage::set_signal(&mut env, signal_id, &signal);
    storage::authorize_user(&mut env, user);
    env.set_balance(user, 1000);
    env.set_liquidity(signal_id, 500);

    // Execute a trade
    let _ = AutoTradeContract::execute_trade(&mut env, user, signal_id, OrderType::Market, 400)
        .unwrap();

    // Check positions
    let positions = AutoTradeContract::get_user_positions(&env, user);
    assert!(positions.contains_key(1));

    let position = positions.get(1).unwrap();
    assert_eq!(position.amount, 400);
    assert_eq!(position.entry_price, 100);
}

#[test]
fn test_stop_loss_check() {
    let mut env = setup_env();
    let user = USER;

    // Setup a position with entry price 100
    risk::update_position(&mut env, user, 1, 1000, 100);

    let config = RiskConfig::default(); // 15% stop loss

    // Price at 90 (10% drop) - should NOT trigger
    let triggered = risk::check_stop_loss(&env, user, 1, 90, &config);
    assert!(!triggered);

    // Price at 80 (20% drop) - should trigger
    let triggered = risk::check_stop_loss(&env, user, 1, 80, &config);
    assert!(triggered);
}

#[test]
fn test_get_trade_history_paginated() {
    let mut env = setup_env();
    let user = USER;
    let signal_id = 1;
    let signal = setup_signal(&env, signal_id, env.timestamp() + 1000);

    // Setup (max_position_pct: 100 so multiple buys in same asset pass risk checks)
    storage::set_signal(&mut env, signal_id, &signal);
    storage::authorize_user(&mut env, user);
    risk::set_risk_config(
        &mut env,
        user,
        &RiskConfig {
            max_position_pct: 100,
            daily_trade_limit: 10,
            stop_loss_pct: 15,
        },
    );
    env.set_balance(user, 5000);
    env.set_liquidity(signal_id, 5000);

    for _ in 0..5 {
        let _ = AutoTradeContract::execute_trade(&mut env, user, signal_id, OrderType::Market, 100)
            .unwrap();
    }

    let history = AutoTradeContract::get_trade_history(&env, user, 0, 10);
    assert_eq!(history.len(), 5);

    let page2 = AutoTradeContract::get_trade_history(&env, user, 2, 2);
    assert_eq!(page2.len(), 2);
}

#[test]
fn test_get_trade_history_empty() {
    let env = setup_env();
    let user = USER;

    let history = AutoTradeContract::get_trade_history(&env, user, 0, 20);
    assert_eq!(history.len(), 0);
}

#[test]
fn test_get_portfolio() {
    let mut env = setup_env();
    let user = USER;
    let signal_id = 1;
    let signal = setup_signal(&env, signal_id, env.timestamp() + 1000);

    storage::set_signal(&mut env, signal_id, &signal);
    storage::authorize_user(&mut env, user);
    env.set_balance(user, 1000);
    env.set_liquidity(signal_id, 500);

    let _ = AutoTradeContract::execute_trade(&mut env, user, signal_id, OrderType::Market, 400)
        .unwrap();

    let portfolio = AutoTradeContract::get_portfolio(&env, user);
    assert_eq!(portfolio.assets.len(), 1);
    assert_eq!(portfolio.assets.get(0).unwrap().amount, 400);
    assert_eq!(portfolio.assets.get(0).unwrap().asset_id, 1);
}

#[test]
fn test_portfolio_value_calculation() {
    let mut env = setup_env();
    let user = USER;

    // Set up positions and prices
    risk::set_asset_price(&mut env, 1, 100);
    risk::set_asset_price(&mut env, 2, 200);

    risk::update_position(&mut env, user, 1, 1000, 100);
    risk::update_position(&mut env, user, 2, 500, 200);

    let total_value = risk::calculate_portfolio_value(&env, user);
    // (1000 * 100 / 100) + (500 * 200 / 100) = 1000 + 1000 = 2000
    assert_eq!(total_value, 2000);
}

#[test]
fn test_grant_authorization_success() {
    let mut env = setup_env();
    let user = USER;

    let res = AutoTradeContract::grant_authorization(&mut env, user, 500_0000000, 30);
    assert!(res.is_ok());

    let config = AutoTradeContract::get_auth_config(&env, user).unwrap();
    assert_eq!(config.authorized, true);
    assert_eq!(config.max_trade_amount, 500_0000000);
    assert_eq!(config.expires_at, 1000 + (30 * 86400));
}

#[test]
fn test_grant_authorization_zero_amount() {
    let mut env = setup_env();
    let user = USER;

    let res = AutoTradeContract::grant_authorization(&mut env, user, 0, 30);
    assert_eq!(res, Err(AutoTradeError::InvalidAmount));
}

#[test]
fn test_revoke_authorization() {
    let mut env = setup_env();
    let user = USER;

    AutoTradeContract::grant_authorization(&mut env, user, 1000_0000000, 30).unwrap();
    AutoTradeContract::revoke_authorization(&mut env, user).unwrap();

    let config = AutoTradeContract::get_auth_config(&env, user);
    assert!(config.is_none());
}

#[test]
fn test_trade_under_limit_succeeds() {
    let mut env = setup_env();
    let user = USER;
    let signal_id = 1;
    let signal = setup_signal(&env, signal_id, env.timestamp() + 1000);

    storage::set_signal(&mut env, signal_id, &signal);
    AutoTradeContract::grant_authorization(&mut env, user, 500_0000000, 30).unwrap();
    env.set_balance(user, 1000_0000000);
    env.set_liquidity(signal_id, 1000_0000000);

    let res =
        AutoTradeContract::execute_trade(&mut env, user, signal_id, OrderType::Market, 400_0000000);
    assert!(res.is_ok());
}

#[test]
fn test_trade_over_limit_fails() {
    let mut env = setup_env();
    let user = USER;
    let signal_id = 1;
    let signal = setup_signal(&env, signal_id, env.timestamp() + 1000);

    storage::set_signal(&mut env, signal_id, &signal);
    AutoTradeContract::grant_authorization(&mut env, user, 500_0000000, 30).unwrap();
    env.set_balance(user, 1000_0000000);

    let res =
        AutoTradeContract::execute_trade(&mut env, user, signal_id, OrderType::Market, 600_0000000);
    assert_eq!(res, Err(AutoTradeError::Unauthorized));
}

#[test]
fn test_revoked_authorization_blocks_trade() {
    let mut env = setup_env();
    let user = USER;
    let signal_id = 1;
    let signal = setup_signal(&env, signal_id, env.timestamp() + 1000);

    storage::set_signal(&mut env, signal_id, &signal);
    AutoTradeContract::grant_authorization(&mut env, user, 1000_0000000, 30).unwrap();
    AutoTradeContract::revoke_authorization(&mut env, user).unwrap();

    let res =
        AutoTradeContract::execute_trade(&mut env, user, signal_id, OrderType::Market, 100_0000000);
    assert_eq!(res, Err(AutoTradeError::Unauthorized));
}

#[test]
fn test_expired_authorization_blocks_trade() {
    let mut env = setup_env();
    let user = USER;
    let signal_id = 1;
    let signal = setup_signal(&env, signal_id, env.timestamp() + 100000);

    storage::set_signal(&mut env, signal_id, &signal);
    // Grant with 1 day duration
    AutoTradeContract::grant_authorization(&mut env, user, 1000_0000000, 1).unwrap();

    // Fast forward time beyond expiry
    env.set_timestamp(1000 + 86400 + 1);

    let res =
        AutoTradeContract::execute_trade(&mut env, user, signal_id, OrderType::Market, 100_0000000);
    assert_eq!(res, Err(AutoTradeError::Unauthorized));
}

#[test]
fn test_multiple_authorization_grants_latest_applies() {
    let mut env = setup_env();
    let user = USER;

    AutoTradeContract::grant_authorization(&mut env, user, 500_0000000, 30).unwrap();
    AutoTradeContract::grant_authorization(&mut env, user, 1000_0000000, 60).unwrap();

    let config = AutoTradeContract::get_auth_config(&env, user).unwrap();
    assert_eq!(config.max_trade_amount, 1000_0000000);
    assert_eq!(config.expires_at, 1000 + (60 * 86400));
}

#[test]
fn test_authorization_at_exact_limit() {
    let mut env = setup_env();
    let user = USER;
    let signal_id = 1;
    let signal = setup_signal(&env, signal_id, env.timestamp() + 1000);

    storage::set_signal(&mut env, signal_id, &signal);
    AutoTradeContract::grant_authorization(&mut env, user, 500_0000000, 30).unwrap();
    env.set_balance(user, 1000_0000000);
    env.set_liquidity(signal_id, 1000_0000000);

    let res =
        AutoTradeContract::execute_trade(&mut env, user, signal_id, OrderType::Market, 500_0000000);
    assert!(res.is_ok());
}

#[test]
fn setup_fixtures_match_the_scenario() {
    let env = setup_env();
    assert_eq!(env.timestamp(), 1000);
    assert!(storage::get_signal(&env, 1).is_none());
    let s = setup_signal(&env, 4, 2000);
    assert_eq!((s.signal_id, s.price, s.expiry, s.base_asset), (4, 100, 2000, 1));
}
