use auto_trade::env::Env;
use auto_trade::errors::AutoTradeError;
use auto_trade::risk;
use auto_trade::strategies::dca::{
    analyze_dca_performance, create_dca_strategy, execute_dca_purchase, frequency_interval,
    get_dca_strategy, handle_missed_dca_purchases, is_purchase_due, pause_dca_strategy,
    resume_dca_strategy, update_dca_schedule, DCAFrequency, DCAStatus, PRECISION,
};
use auto_trade::types::UserId;

const ALICE: UserId = 5;

fn funded(price: i128, balance: i128) -> Env {
    let mut env = Env::new(1_000);
    risk::set_asset_price(&mut env, 1, price);
    env.set_balance(ALICE, balance);
    env
}

#[test]
fn frequencies_have_their_periods() {
    assert_eq!(frequency_interval(DCAFrequency::Daily), 86_400);
    assert_eq!(frequency_interval(DCAFrequency::Weekly), 604_800);
    assert_eq!(frequency_interval(DCAFrequency::Monthly), 2_592_000);
    assert_eq!(
        frequency_interval(DCAFrequency::Custom {
            interval_seconds: 77
        }),
        77
    );
}

#[test]
fn strategies_get_consecutive_ids() {
    let mut env = funded(100, 1_000);
    assert_eq!(
        create_dca_strategy(&mut env, ALICE, 1, 10, DCAFrequency::Daily, None),
        Ok(0)
    );
    assert_eq!(
        create_dca_strategy(&mut env, ALICE, 2, 10, DCAFrequency::Weekly, None),
        Ok(1)
    );
    let s = get_dca_strategy(&env, 1).unwrap();
    assert_eq!(s.id, 1);
    assert_eq!(s.asset_id, 2);
    assert_eq!(s.end_time, 0);
    assert_eq!(s.start_time, 1_000);
    assert!(get_dca_strategy(&env, 2).is_none());
}

#[test]
fn invalid_strategies_are_refused() {
    let mut env = funded(100, 1_000);
    assert_eq!(
        create_dca_strategy(&mut env, ALICE, 1, 0, DCAFrequency::Daily, None),
        Err(AutoTradeError::InvalidAmount)
    );
    assert_eq!(
        create_dca_strategy(
            &mut env,
            ALICE,
            1,
            10,
            DCAFrequency::Custom { interval_seconds: 0 },
            None
        ),
        Err(AutoTradeError::InvalidFrequency)
    );
    assert!(get_dca_strategy(&env, 0).is_none());
}

#[test]
fn unknown_strategy_is_reported() {
    let mut env = funded(100, 1_000);
    assert_eq!(is_purchase_due(&env, 3), Err(AutoTradeError::StrategyNotFound));
    assert_eq!(execute_dca_purchase(&mut env, 3), Err(AutoTradeError::StrategyNotFound));
    assert_eq!(pause_dca_strategy(&mut env, 3), Err(AutoTradeError::StrategyNotFound));
    assert_eq!(resume_dca_strategy(&mut env, 3), Err(AutoTradeError::StrategyNotFound));
    assert_eq!(
        update_dca_schedule(&mut env, 3, Some(5), None),
        Err(AutoTradeError::StrategyNotFound)
    );
    assert_eq!(
        analyze_dca_performance(&env, 3),
        Err(AutoTradeError::StrategyNotFound)
    );
    assert_eq!(
        handle_missed_dca_purchases(&mut env, 3),
        Err(AutoTradeError::StrategyNotFound)
    );
}

#[test]
fn purchases_are_refused_when_not_due_inactive_or_unpriced() {
    let mut env = funded(100, 1_000);
    let id = create_dca_strategy(&mut env, ALICE, 1, 10, DCAFrequency::Daily, None).unwrap();
    execute_dca_purchase(&mut env, id).unwrap();
    // Right after a purchase it is not due again.
    assert_eq!(execute_dca_purchase(&mut env, id), Err(AutoTradeError::PurchaseNotDue));
    env.set_timestamp(1_000 + 86_399);
    assert_eq!(execute_dca_purchase(&mut env, id), Err(AutoTradeError::PurchaseNotDue));
    pause_dca_strategy(&mut env, id).unwrap();
    env.set_timestamp(1_000 + 86_400);
    assert_eq!(execute_dca_purchase(&mut env, id), Err(AutoTradeError::StrategyNotActive));
    resume_dca_strategy(&mut env, id).unwrap();
    risk::set_asset_price(&mut env, 1, 0);
    assert_eq!(execute_dca_purchase(&mut env, id), Err(AutoTradeError::PriceUnavailable));
    assert_eq!(get_dca_strategy(&env, id).unwrap().purchases.len(), 1);
}

#[test]
fn purchase_without_oracle_price_is_refused() {
    let mut env = Env::new(1_000);
    env.set_balance(ALICE, 1_000);
    let id = create_dca_strategy(&mut env, ALICE, 9, 10, DCAFrequency::Daily, None).unwrap();
    assert_eq!(execute_dca_purchase(&mut env, id), Err(AutoTradeError::PriceUnavailable));
    assert_eq!(analyze_dca_performance(&env, id), Err(AutoTradeError::PriceUnavailable));
}

#[test]
fn purchase_totals_and_average_are_exact() {
    let mut env = funded(100, 10_000);
    let id = create_dca_strategy(&mut env, ALICE, 1, 100, DCAFrequency::Daily, None).unwrap();
    execute_dca_purchase(&mut env, id).unwrap();
    env.set_timestamp(1_000 + 86_400);
    risk::set_asset_price(&mut env, 1, 200);
    execute_dca_purchase(&mut env, id).unwrap();
    let s = get_dca_strategy(&env, id).unwrap();
    assert_eq!(s.total_invested, 200);
    assert_eq!(s.total_acquired, 1_500_000);
    assert_eq!(s.average_entry_price, 133);
    assert_eq!(s.purchases[0].acquired, PRECISION);
    assert_eq!(s.purchases[1].acquired, 500_000);
    assert_eq!(s.purchases[1].timestamp, 1_000 + 86_400);
    assert_eq!(s.last_purchase_time, 1_000 + 86_400);
    // The average is never below the cheapest purchase price.
    assert!(s.average_entry_price >= 100);
}

#[test]
fn performance_is_valued_at_the_current_price() {
    let mut env = funded(100, 10_000);
    let id = create_dca_strategy(&mut env, ALICE, 1, 100, DCAFrequency::Daily, None).unwrap();
    execute_dca_purchase(&mut env, id).unwrap();
    risk::set_asset_price(&mut env, 1, 150);
    let perf = analyze_dca_performance(&env, id).unwrap();
    // 1_000_000 millionths at 150
    assert_eq!(perf.current_value, 150);
    assert_eq!(perf.profit_loss, 50);
    assert_eq!(perf.average_entry_price, 100);
    assert_eq!(perf.total_acquired, 1_000_000);
}

#[test]
fn schedule_updates_are_validated() {
    let mut env = funded(100, 1_000);
    let id = create_dca_strategy(&mut env, ALICE, 1, 10, DCAFrequency::Daily, None).unwrap();
    assert_eq!(
        update_dca_schedule(&mut env, id, Some(0), None),
        Err(AutoTradeError::InvalidAmount)
    );
    assert_eq!(
        update_dca_schedule(
            &mut env,
            id,
            None,
            Some(DCAFrequency::Custom { interval_seconds: 0 })
        ),
        Err(AutoTradeError::InvalidFrequency)
    );
    update_dca_schedule(&mut env, id, None, Some(DCAFrequency::Monthly)).unwrap();
    let s = get_dca_strategy(&env, id).unwrap();
    assert_eq!(s.purchase_amount, 10);
    assert_eq!(s.frequency, DCAFrequency::Monthly);
}

#[test]
fn missed_purchases_stop_at_the_end_time() {
    let mut env = funded(100, 10_000);
    let id = create_dca_strategy(&mut env, ALICE, 1, 10, DCAFrequency::Daily, Some(2)).unwrap();
    env.set_timestamp(1_000 + 10 * 86_400);
    assert_eq!(handle_missed_dca_purchases(&mut env, id), Ok(2));
    let s = get_dca_strategy(&env, id).unwrap();
    assert_eq!(s.purchases.len(), 2);
    assert_eq!(s.total_invested, 20);
    assert_eq!(s.last_purchase_time, 1_000 + 10 * 86_400);
}

#[test]
fn missed_purchases_count_from_the_last_purchase() {
    let mut env = funded(100, 10_000);
    let id = create_dca_strategy(&mut env, ALICE, 1, 10, DCAFrequency::Daily, None).unwrap();
    execute_dca_purchase(&mut env, id).unwrap();
    env.set_timestamp(1_000 + 86_400 - 1);
    assert_eq!(handle_missed_dca_purchases(&mut env, id), Ok(0));
    env.set_timestamp(1_000 + 2 * 86_400 + 5);
    assert_eq!(handle_missed_dca_purchases(&mut env, id), Ok(2));
    assert_eq!(get_dca_strategy(&env, id).unwrap().purchases.len(), 3);
}

#[test]
fn missed_purchases_need_an_active_funded_strategy() {
    let mut env = funded(100, 5);
    let id = create_dca_strategy(&mut env, ALICE, 1, 10, DCAFrequency::Daily, None).unwrap();
    env.set_timestamp(1_000 + 2 * 86_400);
    assert_eq!(
        handle_missed_dca_purchases(&mut env, id),
        Err(AutoTradeError::InsufficientBalance)
    );
    assert_eq!(get_dca_strategy(&env, id).unwrap().status, DCAStatus::Paused);
    assert_eq!(
        handle_missed_dca_purchases(&mut env, id),
        Err(AutoTradeError::StrategyNotActive)
    );
}

#[test]
fn resumed_strategy_follows_its_schedule() {
    let mut env = funded(100, 1_000);
    let id = create_dca_strategy(&mut env, ALICE, 1, 10, DCAFrequency::Weekly, None).unwrap();
    pause_dca_strategy(&mut env, id).unwrap();
    assert_eq!(is_purchase_due(&env, id), Ok(false));
    resume_dca_strategy(&mut env, id).unwrap();
    assert_eq!(get_dca_strategy(&env, id).unwrap().status, DCAStatus::Active);
    assert_eq!(is_purchase_due(&env, id), Ok(true));
    execute_dca_purchase(&mut env, id).unwrap();
    env.set_timestamp(1_000 + 86_400);
    assert_eq!(is_purchase_due(&env, id), Ok(false));
    env.set_timestamp(1_000 + 604_800);
    assert_eq!(is_purchase_due(&env, id), Ok(true));
}
