use auto_trade::env::Env;
use auto_trade::errors::AutoTradeError;
use auto_trade::risk;
use auto_trade::strategies::dca::{
    analyze_dca_performance, create_dca_strategy, execute_dca_purchase, get_dca_strategy,
    handle_missed_dca_purchases, is_purchase_due, pause_dca_strategy, resume_dca_strategy,
    update_dca_schedule, DCAFrequency, DCAStatus,
};
use auto_trade::types::UserId;

fn setup() -> (Env, UserId) {
    let env = Env::new(1_000);
    let user: UserId = 42;
    (env, user)
}

fn set_price(env: &mut Env, asset: u32, price: i128) {
    risk::set_asset_price(env, asset, price);
}

fn set_balance(env: &mut Env, user: UserId, bal: i128) {
    env.set_balance(user, bal);
}

#[test]
fn test_create_dca_strategy() {
    let (mut env, user) = setup();
    let id = create_dca_strategy(&mut env, user, 1, 10, DCAFrequency::Daily, Some(30)).unwrap();
    assert_eq!(id, 0);
    let s = get_dca_strategy(&env, id).unwrap();
    assert_eq!(s.purchase_amount, 10);
    assert_eq!(s.status, DCAStatus::Active);
    assert_eq!(s.end_time, 1_000 + 30 * 86_400);
}

#[test]
fn test_first_purchase_executes_immediately() {
    let (mut env, user) = setup();
    set_price(&mut env, 1, 100);
    set_balance(&mut env, user, 1_000);
    let id = create_dca_strategy(&mut env, user, 1, 10, DCAFrequency::Daily, None).unwrap();
    assert!(is_purchase_due(&env, id).unwrap());
    execute_dca_purchase(&mut env, id).unwrap();
    let s = get_dca_strategy(&env, id).unwrap();
    assert_eq!(s.purchases.len(), 1);
    assert_eq!(s.total_invested, 10);
}

#[test]
fn test_second_purchase_after_one_day() {
    let (mut env, user) = setup();
    set_price(&mut env, 1, 100);
    set_balance(&mut env, user, 1_000);
    let id = create_dca_strategy(&mut env, user, 1, 10, DCAFrequency::Daily, None).unwrap();
    execute_dca_purchase(&mut env, id).unwrap();

    // Not due yet
    assert!(!is_purchase_due(&env, id).unwrap());

    // Advance 1 day
    env.set_timestamp(1_000 + 86_400);
    assert!(is_purchase_due(&env, id).unwrap());
    execute_dca_purchase(&mut env, id).unwrap();

    let s = get_dca_strategy(&env, id).unwrap();
    assert_eq!(s.purchases.len(), 2);
}

#[test]
fn test_average_entry_price_calculation() {
    let (mut env, user) = setup();
    set_balance(&mut env, user, 10_000);
    let id = create_dca_strategy(&mut env, user, 1, 100, DCAFrequency::Daily, None).unwrap();

    // Purchase 1 at price 100
    set_price(&mut env, 1, 100);
    execute_dca_purchase(&mut env, id).unwrap();

    // Purchase 2 at price 200
    env.set_timestamp(1_000 + 86_400);
    set_price(&mut env, 1, 200);
    execute_dca_purchase(&mut env, id).unwrap();

    let s = get_dca_strategy(&env, id).unwrap();
    // total_invested = 200, total_acquired = 1_000_000 + 500_000 = 1_500_000 (PRECISION=1_000_000)
    // avg = (200 * 1_000_000) / 1_500_000 = 133
    assert!(s.average_entry_price > 0);
    assert!(s.average_entry_price < 200);
}

#[test]
fn test_pause_stops_purchases() {
    let (mut env, user) = setup();
    set_price(&mut env, 1, 100);
    set_balance(&mut env, user, 1_000);
    let id = create_dca_strategy(&mut env, user, 1, 10, DCAFrequency::Daily, None).unwrap();
    execute_dca_purchase(&mut env, id).unwrap();
    pause_dca_strategy(&mut env, id).unwrap();

    env.set_timestamp(1_000 + 86_400);
    assert!(!is_purchase_due(&env, id).unwrap());
}

#[test]
fn test_resume_restarts_purchases() {
    let (mut env, user) = setup();
    set_price(&mut env, 1, 100);
    set_balance(&mut env, user, 1_000);
    let id = create_dca_strategy(&mut env, user, 1, 10, DCAFrequency::Daily, None).unwrap();
    execute_dca_purchase(&mut env, id).unwrap();
    pause_dca_strategy(&mut env, id).unwrap();

    env.set_timestamp(1_000 + 86_400);
    assert!(!is_purchase_due(&env, id).unwrap());

    resume_dca_strategy(&mut env, id).unwrap();
    assert!(is_purchase_due(&env, id).unwrap());
    execute_dca_purchase(&mut env, id).unwrap();

    let s = get_dca_strategy(&env, id).unwrap();
    assert_eq!(s.purchases.len(), 2);
}

#[test]
fn test_analyze_performance() {
    let (mut env, user) = setup();
    set_price(&mut env, 1, 100);
    set_balance(&mut env, user, 1_000);
    let id = create_dca_strategy(&mut env, user, 1, 100, DCAFrequency::Daily, None).unwrap();
    execute_dca_purchase(&mut env, id).unwrap();

    let perf = analyze_dca_performance(&env, id).unwrap();
    assert_eq!(perf.total_invested, 100);
    assert_eq!(perf.total_purchases, 1);
    assert_eq!(perf.current_price, 100);
}

#[test]
fn test_end_time_stops_purchases() {
    let (mut env, user) = setup();
    set_price(&mut env, 1, 100);
    set_balance(&mut env, user, 1_000);
    // 1-day duration
    let id = create_dca_strategy(&mut env, user, 1, 10, DCAFrequency::Daily, Some(1)).unwrap();
    execute_dca_purchase(&mut env, id).unwrap();

    // Advance past end_time
    env.set_timestamp(1_000 + 86_400 + 1);
    assert!(!is_purchase_due(&env, id).unwrap());
}

#[test]
fn test_insufficient_balance_pauses_strategy() {
    let (mut env, user) = setup();
    set_price(&mut env, 1, 100);
    set_balance(&mut env, user, 5); // less than purchase_amount=10
    let id = create_dca_strategy(&mut env, user, 1, 10, DCAFrequency::Daily, None).unwrap();
    let err = execute_dca_purchase(&mut env, id).unwrap_err();
    assert_eq!(err, AutoTradeError::InsufficientBalance);
    let s = get_dca_strategy(&env, id).unwrap();
    assert_eq!(s.status, DCAStatus::Paused);
}

#[test]
fn test_update_dca_schedule() {
    let (mut env, user) = setup();
    let id = create_dca_strategy(&mut env, user, 1, 10, DCAFrequency::Daily, None).unwrap();
    update_dca_schedule(&mut env, id, Some(50), Some(DCAFrequency::Weekly)).unwrap();
    let s = get_dca_strategy(&env, id).unwrap();
    assert_eq!(s.purchase_amount, 50);
    assert_eq!(s.frequency, DCAFrequency::Weekly);
}

#[test]
fn test_handle_missed_purchases() {
    let (mut env, user) = setup();
    set_price(&mut env, 1, 100);
    set_balance(&mut env, user, 10_000);
    let id = create_dca_strategy(&mut env, user, 1, 10, DCAFrequency::Daily, None).unwrap();

    // Advance 3 days without executing
    env.set_timestamp(1_000 + 3 * 86_400);
    let missed = handle_missed_dca_purchases(&mut env, id).unwrap();
    assert_eq!(missed, 3);
    let s = get_dca_strategy(&env, id).unwrap();
    assert_eq!(s.purchases.len(), 3);
}

#[test]
fn test_custom_frequency() {
    let (mut env, user) = setup();
    set_price(&mut env, 1, 100);
    set_balance(&mut env, user, 1_000);
    let id = create_dca_strategy(
        &mut env,
        user,
        1,
        10,
        DCAFrequency::Custom {
            interval_seconds: 3_600,
        },
        None,
    )
    .unwrap();
    execute_dca_purchase(&mut env, id).unwrap();

    // Not due after 30 min
    env.set_timestamp(1_000 + 1_800);
    assert!(!is_purchase_due(&env, id).unwrap());

    // Due after 1 hour
    env.set_timestamp(1_000 + 3_600);
    assert!(is_purchase_due(&env, id).unwrap());
}
