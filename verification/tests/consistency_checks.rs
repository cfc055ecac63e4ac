use auto_trade::env::Env;
use auto_trade::risk;
use auto_trade::strategies::dca::{
    create_dca_strategy, execute_dca_purchase, get_dca_strategy, strategy_checks_out,
    DCAFrequency, DCAStrategy,
};
use auto_trade::types::{Position, UserId};

const ALICE: UserId = 5;

fn position(asset_id: u32, amount: i128, entry_price: i128) -> Position {
    Position { asset_id, amount, entry_price }
}

fn copy_strategy(s: &DCAStrategy) -> DCAStrategy {
    DCAStrategy {
        id: s.id,
        user: s.user,
        asset_id: s.asset_id,
        purchase_amount: s.purchase_amount,
        frequency: s.frequency,
        start_time: s.start_time,
        end_time: s.end_time,
        last_purchase_time: s.last_purchase_time,
        status: s.status,
        purchases: s.purchases.clone(),
        total_invested: s.total_invested,
        total_acquired: s.total_acquired,
        average_entry_price: s.average_entry_price,
    }
}

#[test]
fn position_entries_list_every_asset_once() {
    let mut env = Env::new(1_000);
    risk::update_position(&mut env, ALICE, 1, 400, 100);
    risk::update_position(&mut env, ALICE, 2, 50, 20);
    risk::update_position(&mut env, ALICE, 1, 300, 110);
    let held = risk::get_user_positions(&env, ALICE);
    let mut entries = held.entries();
    entries.sort_by_key(|p| p.asset_id);
    assert_eq!(entries, vec![position(1, 300, 110), position(2, 50, 20)]);
    assert_eq!(entries.len(), held.len());
}

#[test]
fn position_entries_of_a_user_without_positions_are_empty() {
    let env = Env::new(1_000);
    assert!(risk::get_user_positions(&env, ALICE).entries().is_empty());
}

#[test]
fn distinct_assets_spots_a_repeated_asset() {
    assert!(risk::distinct_assets(&vec![]));
    assert!(risk::distinct_assets(&vec![position(1, 10, 100), position(2, 10, 100)]));
    assert!(!risk::distinct_assets(&vec![
        position(1, 10, 100),
        position(2, 10, 100),
        position(1, 5, 90),
    ]));
}

#[test]
fn stored_strategies_check_out() {
    let mut env = Env::new(1_000);
    risk::set_asset_price(&mut env, 1, 100);
    env.set_balance(ALICE, 10_000);
    let id = create_dca_strategy(&mut env, ALICE, 1, 100, DCAFrequency::Daily, None).unwrap();
    assert!(strategy_checks_out(&get_dca_strategy(&env, id).unwrap()));
    execute_dca_purchase(&mut env, id).unwrap();
    let bought = get_dca_strategy(&env, id).unwrap();
    assert_eq!(bought.purchases.len(), 1);
    assert!(strategy_checks_out(&bought));
}

#[test]
fn tampered_strategies_do_not_check_out() {
    let mut env = Env::new(1_000);
    risk::set_asset_price(&mut env, 1, 100);
    env.set_balance(ALICE, 10_000);
    let id = create_dca_strategy(&mut env, ALICE, 1, 100, DCAFrequency::Daily, None).unwrap();
    execute_dca_purchase(&mut env, id).unwrap();
    let bought = get_dca_strategy(&env, id).unwrap();

    let mut wrong_total = copy_strategy(&bought);
    wrong_total.total_invested += 1;
    assert!(!strategy_checks_out(&wrong_total));

    let mut no_amount = copy_strategy(&bought);
    no_amount.purchase_amount = 0;
    assert!(!strategy_checks_out(&no_amount));

    let mut zero_period = copy_strategy(&bought);
    zero_period.frequency = DCAFrequency::Custom { interval_seconds: 0 };
    assert!(!strategy_checks_out(&zero_period));

    let mut lost_purchase = copy_strategy(&bought);
    lost_purchase.purchases.clear();
    assert!(!strategy_checks_out(&lost_purchase));
}
