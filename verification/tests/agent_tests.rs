use austrian_market::entity::normal_distribute::NormalDistribution;
use austrian_market::logging::{LogRecord, Logger};
use austrian_market::model::agent::preference::{Preference, PreferenceEntry};
use austrian_market::model::agent::{insert_demand, Agent, IntervalRelation, TradeResult};
use austrian_market::model::agent::{any_offer_above, any_offer_below, lowest_offer};
use austrian_market::model::agent::{lowest_offer_seen, pick_wish, wish_schedule, wish_turn};
use austrian_market::model::agent::{range_after_failure, range_after_success};
use austrian_market::model::product::{Product, ProductCategory};
use std::collections::HashSet;

fn money(units: f64) -> u64 {
    (units * 1_000_000.0).round() as u64
}

fn share(part: f64) -> u64 {
    (part * 1_000_000.0).round() as u64
}

fn range(lower: f64, upper: f64) -> (u64, u64) {
    (money(lower), money(upper))
}

fn prices(units: &[f64]) -> Vec<u64> {
    units.iter().map(|u| money(*u)).collect()
}

fn test_product(product_id: u64) -> Product {
    Product::from(
        product_id,
        "test_product".to_string(),
        ProductCategory::Food,
        share(1.0),
        NormalDistribution::new(money(10.0), product_id, "price_dist".to_string(), money(2.0)),
        NormalDistribution::new(money(0.5), product_id, "elastic_dist".to_string(), money(0.1)),
        NormalDistribution::new(money(5.0), product_id, "cost_dist".to_string(), money(1.0)),
    )
}

fn test_agent(cash: f64, auto_demand: bool) -> Agent {
    let products = vec![test_product(1)];
    let samples = vec![(money(10.0), share(0.5))];
    Agent::new(1, "test_agent".to_string(), money(cash), &products, &samples, auto_demand)
}

fn agent_with_belief(cash: f64, lower: f64, upper: f64) -> Agent {
    let mut agent = test_agent(cash, false);
    agent.add_demand(1);
    let mut preference = Preference::new(money(0.5), share(1.0));
    preference.current_range = range(lower, upper);
    agent.set_preference(ProductCategory::Food, 1, preference);
    agent
}

fn setup_test_environment() -> (Agent, Logger, u64, ProductCategory) {
    let agent = agent_with_belief(100.0, 10.0, 90.0);
    (agent, Logger::new("task".to_string()), 1, ProductCategory::Food)
}

fn set_elastic(agent: &mut Agent, elastic: f64) {
    let mut preference = agent.get_specific_preference(1, ProductCategory::Food);
    preference.original_elastic = share(elastic);
    agent.set_preference(ProductCategory::Food, 1, preference);
}

fn set_range(agent: &mut Agent, lower: f64, upper: f64) {
    agent.set_preference_detail(ProductCategory::Food, 1, None, Some(range(lower, upper)));
}

#[test]
fn agent_test_new() {
    let id = 1;
    let name = "test_agent".to_string();
    let cash = money(100.0);
    let products = Vec::new();
    let samples = Vec::new();

    let agent = Agent::new(id, name.clone(), cash, &products, &samples, true);

    assert_eq!(agent.id(), id);
    assert_eq!(agent.name(), name);
    assert_eq!(agent.preferences().len(), 0);
    assert_eq!(agent.cash(), cash);
    assert!(agent.auto_demand());
}

#[test]
fn test_has_demand_with_demand() {
    let product_id = 1;
    let mut agent = test_agent(100.0, true);
    agent.add_demand(product_id);
    assert!(
        agent.has_demand(product_id),
        "Agent should have demand for product {}",
        product_id
    );
}

#[test]
fn test_has_demand_without_demand() {
    let product_id = 1;
    let agent = test_agent(100.0, true);
    assert!(
        !agent.has_demand(product_id),
        "Agent should not have demand for product {}",
        product_id
    );
}

#[test]
fn test_remove_demand() {
    let product_id = 1;
    let mut agent = test_agent(100.0, false);
    let mut logger = Logger::new("task".to_string());
    agent.add_demand(product_id);
    assert!(agent.has_demand(product_id));

    agent.remove_demand(product_id, ProductCategory::Food, 0, "test_removal", &mut logger);

    assert!(
        !agent.has_demand(product_id),
        "Agent should not have demand for product {} after remove_demand",
        product_id
    );
    let records = logger.take_records();
    assert_eq!(records.len(), 1);
    match &records[0] {
        LogRecord::AgentDemandRemoval(log) => {
            assert_eq!(log.removal_reason, "test_removal");
            assert_eq!(log.task_id, "task");
            assert_eq!(log.agent_id, 1);
            assert_eq!(log.agent_name, "test_agent");
            assert_eq!(log.product_id, product_id);
            assert_eq!(log.agent_cash, money(100.0));
            assert_eq!(log.agent_pref_original_price, Some(money(10.0)));
            assert_eq!(log.agent_pref_original_elastic, Some(share(0.5)));
            assert_eq!(log.agent_pref_current_price, Some(money(10.0)));
        }
        _ => panic!("a demand removal should be recorded"),
    }
}

#[test]
fn test_remove_demand_when_no_demand() {
    let product_id = 1;
    let mut agent = test_agent(100.0, false);
    let mut logger = Logger::new("task".to_string());
    assert!(!agent.has_demand(product_id));

    agent.remove_demand(product_id, ProductCategory::Food, 0, "test_removal", &mut logger);

    assert!(
        !agent.has_demand(product_id),
        "Agent should still not have demand for product {} after remove_demand",
        product_id
    );
}

#[test]
fn removing_the_wish_for_an_unknown_product_records_nothing() {
    let mut agent = test_agent(100.0, false);
    let mut logger = Logger::new("task".to_string());
    agent.add_demand(9);
    agent.remove_demand(9, ProductCategory::Food, 0, "test_removal", &mut logger);
    assert!(!agent.has_demand(9));
    assert_eq!(logger.len(), 0);
    agent.add_demand(1);
    agent.remove_demand(1, ProductCategory::Water, 0, "test_removal", &mut logger);
    assert!(!agent.has_demand(1));
    assert_eq!(logger.len(), 0);
}

#[test]
fn test_income() {
    let products = Vec::new();
    let samples = Vec::new();
    let mut agent = Agent::new(1, "test_agent".to_string(), money(100.0), &products, &samples, true);

    let income_range = range(50.0, 150.0);
    let (min_income, max_income) = income_range;

    let initial_cash = agent.cash();
    agent.income(income_range);
    let final_cash = agent.cash();

    assert!(final_cash > initial_cash, "Cash should increase after income");
    let income_amount = final_cash - initial_cash;
    assert!(income_amount >= min_income, "Income amount should be at least {}", min_income);
    assert!(income_amount <= max_income, "Income amount should be at most {}", max_income);

    let current_cash = agent.cash();
    agent.income(income_range);
    let new_cash = agent.cash();
    assert!(new_cash > current_cash, "Cash should increase after second income");
}

#[test]
fn received_amounts_add_up_and_stop_at_the_largest_amount() {
    let mut agent = test_agent(100.0, false);
    agent.receive(money(2.5));
    assert_eq!(agent.cash(), money(102.5));
    agent.set_cash(u64::MAX - 5);
    agent.receive(5);
    assert_eq!(agent.cash(), u64::MAX);
    agent.receive(1);
    assert_eq!(agent.cash(), u64::MAX);
}

#[test]
fn test_negotiate_with_no_demand() {
    let agent = test_agent(100.0, false);
    let (result, interval_relation) = agent.negotiate(0, 1, ProductCategory::Food, money(50.0));
    assert_eq!(
        result,
        TradeResult::NotMatched,
        "Trade should fail when price is too high"
    );
    assert_eq!(interval_relation, IntervalRelation::AgentBelowFactory);
}

#[test]
fn test_negotiate_with_demand() {
    let agent = agent_with_belief(100.0, 10.0, 90.0);
    let price = money(50.0);
    let (result, interval_relation) = agent.negotiate(0, 1, ProductCategory::Food, price);
    match result {
        TradeResult::Success(p) => {
            assert_eq!(p, price);
        }
        _ => panic!("Trade should match when price is within demand"),
    }
    match interval_relation {
        IntervalRelation::Overlapping(p) => {
            assert_eq!(p, price);
        }
        _ => panic!("Trade should match when price is within demand"),
    }
}

#[test]
fn test_negotiate_price_below_range() {
    let agent = agent_with_belief(100.0, 10.0, 90.0);
    let (result, interval_relation) = agent.negotiate(0, 1, ProductCategory::Food, money(5.0));
    assert_eq!(result, TradeResult::Failed, "Trade should fail when price is below range");
    assert_eq!(
        interval_relation,
        IntervalRelation::AgentAboveFactory,
        "Interval relation should be AgentAboveFactory when price is below range"
    );
}

#[test]
fn test_negotiate_price_above_range() {
    let agent = agent_with_belief(100.0, 10.0, 90.0);
    let (result, interval_relation) = agent.negotiate(0, 1, ProductCategory::Food, money(100.0));
    assert_eq!(result, TradeResult::Failed, "Trade should fail when price is above range");
    assert_eq!(
        interval_relation,
        IntervalRelation::AgentBelowFactory,
        "Interval relation should be AgentBelowFactory when price is above range"
    );
}

#[test]
fn test_negotiate_with_insufficient_cash() {
    let mut agent = agent_with_belief(30.0, 10.0, 90.0);
    let mut logger = Logger::new("task".to_string());
    let (result, interval_relation) = agent.negotiate(0, 1, ProductCategory::Food, money(50.0));
    assert_eq!(result, TradeResult::Failed, "Trade should fail when cash is insufficient");
    assert_eq!(interval_relation, IntervalRelation::CashBurnedOut);

    set_elastic(&mut agent, 0.0);
    agent.handle_trade_failure(
        1,
        ProductCategory::Food,
        0,
        interval_relation,
        &prices(&[50.0]),
        &mut logger,
    );
    let preference = agent.get_specific_preference(1, ProductCategory::Food);
    assert_eq!(preference.current_range, range(10.0, 90.0));
    assert_eq!(preference.current_price, 0);
    assert_eq!(agent.cash(), money(30.0));
    assert!(agent.has_demand(1));
    assert_eq!(logger.len(), 0);
}

#[test]
fn negotiating_accepts_exactly_the_prices_of_the_range() {
    let agent = agent_with_belief(100.0, 10.0, 90.0);
    let food = ProductCategory::Food;
    assert_eq!(
        agent.negotiate(3, 1, food, money(10.0)),
        (TradeResult::Success(money(10.0)), IntervalRelation::Overlapping(money(10.0)))
    );
    assert_eq!(
        agent.negotiate(3, 1, food, money(90.0)),
        (TradeResult::Success(money(90.0)), IntervalRelation::Overlapping(money(90.0)))
    );
    assert_eq!(
        agent.negotiate(3, 1, food, money(10.0) - 1),
        (TradeResult::Failed, IntervalRelation::AgentAboveFactory)
    );
    assert_eq!(
        agent.negotiate(3, 1, food, money(90.0) + 1),
        (TradeResult::Failed, IntervalRelation::AgentBelowFactory)
    );
    assert_eq!(
        agent.negotiate(3, 1, food, money(100.0) + 1),
        (TradeResult::Failed, IntervalRelation::CashBurnedOut)
    );
    assert_eq!(
        agent.negotiate(3, 1, ProductCategory::Water, money(50.0)),
        (TradeResult::NotMatched, IntervalRelation::AgentBelowFactory)
    );
    assert_eq!(
        agent.negotiate(3, 2, food, money(50.0)),
        (TradeResult::NotMatched, IntervalRelation::AgentBelowFactory)
    );
    assert_eq!(agent.cash(), money(100.0));
    assert!(agent.has_demand(1));
}

#[test]
fn test_get_specific_preference() {
    let agent = agent_with_belief(100.0, 10.0, 90.0);
    let preference = agent.get_specific_preference(1, ProductCategory::Food);
    assert_eq!(preference.original_price, money(0.5));
    assert_eq!(preference.original_elastic, share(1.0));
    assert_eq!(preference.current_price, 0);
    assert_eq!(preference.current_range, range(10.0, 90.0));
    assert!(agent.find_preference(1, ProductCategory::Water).is_none());
    assert!(agent.find_preference(2, ProductCategory::Food).is_none());
}

#[test]
fn test_set_preference_detail() {
    let mut agent = agent_with_belief(100.0, 10.0, 90.0);
    agent.set_preference_detail(
        ProductCategory::Food,
        1,
        Some(money(0.6)),
        Some(range(11.0, 89.0)),
    );
    let preference = agent.get_specific_preference(1, ProductCategory::Food);
    assert_eq!(preference.original_price, money(0.5));
    assert_eq!(preference.original_elastic, share(1.0));
    assert_eq!(preference.current_price, money(0.6));
    assert_eq!(preference.current_range, range(11.0, 89.0));

    agent.set_preference_detail(ProductCategory::Food, 1, Some(money(0.7)), None);
    let preference = agent.get_specific_preference(1, ProductCategory::Food);
    assert_eq!(preference.current_price, money(0.7));
    assert_eq!(preference.current_range, range(11.0, 89.0));

    agent.set_preference_detail(ProductCategory::Food, 1, None, None);
    agent.set_preference_detail(ProductCategory::Water, 77, None, None);
    let preference = agent.get_specific_preference(1, ProductCategory::Food);
    assert_eq!(preference.current_price, money(0.7));
    assert_eq!(agent.preferences().len(), 1);
}

#[test]
fn test_handle_trade_failure_should_remove_demand_when_random_less_than_elasticity() {
    let (mut agent, mut logger, product_id, product_category) = setup_test_environment();
    set_elastic(&mut agent, 1.0);

    agent.handle_trade_failure(
        product_id,
        product_category,
        0,
        IntervalRelation::AgentBelowFactory,
        &prices(&[100.0]),
        &mut logger,
    );

    assert!(
        !agent.has_demand(product_id),
        "Demand should be removed when random value is less than elasticity"
    );
    let records = logger.take_records();
    assert_eq!(records.len(), 1);
    match &records[0] {
        LogRecord::AgentDemandRemoval(log) => {
            assert_eq!(log.removal_reason, "remove_by_elasticity");
            assert_eq!(log.agent_pref_current_range_lower, Some(money(10.0)));
            assert_eq!(log.agent_pref_current_range_upper, Some(money(90.0)));
        }
        _ => panic!("a demand removal should be recorded"),
    }
    let preference = agent.get_specific_preference(product_id, product_category);
    assert_eq!(preference.current_range, range(10.0, 90.0));
}

#[test]
fn test_handle_trade_failure_should_not_remove_demand_when_random_greater_than_elasticity() {
    let (mut agent, mut logger, product_id, product_category) = setup_test_environment();
    set_elastic(&mut agent, 0.0);

    agent.handle_trade_failure(
        product_id,
        product_category,
        0,
        IntervalRelation::AgentBelowFactory,
        &prices(&[100.0]),
        &mut logger,
    );

    assert!(
        agent.has_demand(product_id),
        "Demand should not be removed when random value is greater than elasticity"
    );
}

#[test]
fn test_handle_trade_failure_should_return_early_when_cash_burned_out() {
    let (mut agent, mut logger, product_id, product_category) = setup_test_environment();
    let initial_range = agent
        .get_specific_preference(product_id, product_category)
        .current_range;
    set_elastic(&mut agent, 0.0);

    agent.handle_trade_failure(
        product_id,
        product_category,
        0,
        IntervalRelation::CashBurnedOut,
        &prices(&[50.0]),
        &mut logger,
    );

    let new_range = agent
        .get_specific_preference(product_id, product_category)
        .current_range;
    assert_eq!(
        new_range, initial_range,
        "Range should not change when interval relation is CashBurnedOut"
    );
    assert_eq!(logger.len(), 0);
}

#[test]
fn test_handle_trade_failure_with_both_above_and_below_prices() {
    let (mut agent, mut logger, product_id, product_category) = setup_test_environment();
    set_elastic(&mut agent, 0.0);

    agent.handle_trade_failure(
        product_id,
        product_category,
        0,
        IntervalRelation::AgentBelowFactory,
        &prices(&[5.0, 100.0]),
        &mut logger,
    );

    assert!(agent.has_demand(product_id), "Demand should still exist");
    let preference = agent.get_specific_preference(product_id, product_category);
    assert_eq!(preference.current_price, money(5.0));
    assert_eq!(preference.current_range, range(0.0, 13.0));
}

#[test]
fn test_handle_trade_failure_with_only_below_prices() {
    let (mut agent, mut logger, product_id, product_category) = setup_test_environment();
    set_elastic(&mut agent, 0.0);

    agent.handle_trade_failure(
        product_id,
        product_category,
        0,
        IntervalRelation::AgentAboveFactory,
        &prices(&[5.0, 8.0]),
        &mut logger,
    );

    assert!(agent.has_demand(product_id), "Demand should still exist");
    let preference = agent.get_specific_preference(product_id, product_category);
    assert_eq!(preference.current_price, money(5.0));
    assert_eq!(preference.current_range, range(1.4, 8.6));
}

#[test]
fn test_handle_trade_failure_with_only_above_prices() {
    let (mut agent, mut logger, product_id, product_category) = setup_test_environment();
    set_elastic(&mut agent, 0.0);

    agent.handle_trade_failure(
        product_id,
        product_category,
        0,
        IntervalRelation::AgentBelowFactory,
        &prices(&[100.0, 120.0]),
        &mut logger,
    );

    assert!(agent.has_demand(product_id), "Demand should still exist");
    let preference = agent.get_specific_preference(product_id, product_category);
    assert_eq!(preference.current_price, money(100.0));
    assert_eq!(preference.current_range, range(95.6, 104.4));
}

#[test]
fn test_handle_trade_failure_within_range_prices() {
    let (mut agent, mut logger, product_id, product_category) = setup_test_environment();
    set_elastic(&mut agent, 0.0);

    agent.handle_trade_failure(
        product_id,
        product_category,
        0,
        IntervalRelation::Overlapping(money(50.0)),
        &prices(&[50.0, 60.0]),
        &mut logger,
    );

    assert!(agent.has_demand(product_id), "Demand should still exist");
    let preference = agent.get_specific_preference(product_id, product_category);
    assert_eq!(preference.current_range, range(10.0, 90.0));
}

#[test]
fn a_failure_rebuilds_the_range_around_the_lowest_price() {
    let food = ProductCategory::Food;
    let cases: Vec<(Vec<f64>, (f64, f64), f64)> = vec![
        (vec![5.0, 100.0], (0.0, 13.0), 5.0),
        (vec![5.0, 8.0], (1.4, 8.6), 5.0),
        (vec![100.0, 120.0], (95.6, 104.4), 100.0),
        (vec![50.0, 60.0], (10.0, 90.0), 50.0),
        (vec![], (10.0, 90.0), 50.0),
        (vec![95.0, 40.0], (35.6, 44.4), 40.0),
    ];
    for (offers, expected_range, expected_price) in cases {
        let mut agent = agent_with_belief(100.0, 10.0, 90.0);
        let mut logger = Logger::new("task".to_string());
        logger.set_timestamp(77);
        agent.set_preference_detail(food, 1, Some(money(50.0)), None);
        agent.apply_trade_failure(
            share(1.0),
            1,
            food,
            4,
            IntervalRelation::AgentBelowFactory,
            &prices(&offers),
            &mut logger,
        );
        let preference = agent.get_specific_preference(1, food);
        assert_eq!(preference.current_range, range(expected_range.0, expected_range.1));
        assert_eq!(preference.current_price, money(expected_price));
        assert_eq!(preference.original_price, money(0.5));
        assert_eq!(agent.cash(), money(100.0));
        assert!(agent.has_demand(1));
        let records = logger.take_records();
        assert_eq!(records.len(), 1);
        match &records[0] {
            LogRecord::AgentRangeAdjustment(log) => {
                assert_eq!(log.timestamp, 77);
                assert_eq!(log.round, 4);
                assert_eq!(log.task_id, "task");
                assert_eq!(log.agent_id, 1);
                assert_eq!(log.product_id, 1);
                assert_eq!((log.old_range_lower, log.old_range_upper), range(10.0, 90.0));
                assert_eq!(
                    (log.new_range_lower, log.new_range_upper),
                    range(expected_range.0, expected_range.1)
                );
                assert_eq!(
                    log.lower_change,
                    money(expected_range.0) as i128 - money(10.0) as i128
                );
                assert_eq!(
                    log.upper_change,
                    money(expected_range.1) as i128 - money(90.0) as i128
                );
                assert_eq!(log.min_change_ratio, log.lower_change * 1_000_000 / 80_000_000);
                assert_eq!(log.max_change_ratio, log.upper_change * 1_000_000 / 80_000_000);
                assert_eq!(log.center, money(expected_price));
                assert_eq!(log.adjustment_type, "trade_failed");
                assert_eq!(log.price, None);
            }
            _ => panic!("a range adjustment should be recorded"),
        }
    }
}

#[test]
fn the_elasticity_draw_decides_between_giving_up_and_adjusting() {
    let food = ProductCategory::Food;
    let mut agent = agent_with_belief(100.0, 10.0, 90.0);
    let mut logger = Logger::new("task".to_string());
    set_elastic(&mut agent, 0.3);
    agent.apply_trade_failure(
        share(0.3),
        1,
        food,
        0,
        IntervalRelation::AgentBelowFactory,
        &prices(&[100.0]),
        &mut logger,
    );
    assert!(agent.has_demand(1));
    assert_ne!(agent.get_specific_preference(1, food).current_range, range(10.0, 90.0));

    let mut agent = agent_with_belief(100.0, 10.0, 90.0);
    set_elastic(&mut agent, 0.3);
    agent.apply_trade_failure(
        share(0.3) - 1,
        1,
        food,
        0,
        IntervalRelation::AgentBelowFactory,
        &prices(&[100.0]),
        &mut logger,
    );
    assert!(!agent.has_demand(1));
    assert_eq!(agent.get_specific_preference(1, food).current_range, range(10.0, 90.0));
}

#[test]
fn test_handle_trade_success_min_len_0_1() {
    let (mut agent, mut logger, product_id, product_category) = setup_test_environment();
    set_range(&mut agent, 0.0, 10.0);
    let price = money(1.0);

    agent.handle_trade_success(0, product_id, product_category, price, &mut logger);

    assert_eq!(agent.cash(), money(99.0), "Cash should decrease by price");
    let preference = agent.get_specific_preference(product_id, product_category);
    assert_eq!(preference.current_price, price, "Current price should be updated");
    assert!(preference.current_range.1 > preference.current_range.0, "Range should be valid");
    assert_eq!(preference.current_range, range(0.0, 5.5));
}

#[test]
fn test_handle_trade_success_min_len_price_percent() {
    let (mut agent, mut logger, product_id, product_category) = setup_test_environment();
    set_range(&mut agent, 0.0, 100.0);
    let price = money(10.0);

    agent.handle_trade_success(0, product_id, product_category, price, &mut logger);

    assert_eq!(agent.cash(), money(90.0), "Cash should decrease by price");
    let preference = agent.get_specific_preference(product_id, product_category);
    assert_eq!(preference.current_price, price, "Current price should be updated");
    assert!(preference.current_range.1 > preference.current_range.0, "Range should be valid");
    assert_eq!(preference.current_range, range(0.0, 55.0));
}

#[test]
fn test_handle_trade_success_new_length_min_len() {
    let (mut agent, mut logger, product_id, product_category) = setup_test_environment();
    set_range(&mut agent, 50.0, 50.1);
    let price = money(50.0);

    agent.handle_trade_success(0, product_id, product_category, price, &mut logger);

    assert_eq!(agent.cash(), money(50.0), "Cash should decrease by price");
    let preference = agent.get_specific_preference(product_id, product_category);
    assert_eq!(preference.current_price, price, "Current price should be updated");
    assert!(preference.current_range.1 > preference.current_range.0, "Range should be valid");
    assert_eq!(preference.current_range, range(48.75, 51.25));
}

#[test]
fn test_handle_trade_success_new_length_old_length_percent() {
    let (mut agent, mut logger, product_id, product_category) = setup_test_environment();
    set_range(&mut agent, 0.0, 100.0);
    let price = money(50.0);

    agent.handle_trade_success(0, product_id, product_category, price, &mut logger);

    assert_eq!(agent.cash(), money(50.0), "Cash should decrease by price");
    let preference = agent.get_specific_preference(product_id, product_category);
    assert_eq!(preference.current_price, price, "Current price should be updated");
    assert!(preference.current_range.1 > preference.current_range.0, "Range should be valid");
    assert_eq!(preference.current_range, range(5.0, 95.0));
}

#[test]
fn test_handle_trade_success_new_lower_0_00() {
    let (mut agent, mut logger, product_id, product_category) = setup_test_environment();
    set_range(&mut agent, 0.0, 10.0);
    let price = money(0.1);

    agent.handle_trade_success(0, product_id, product_category, price, &mut logger);

    let preference = agent.get_specific_preference(product_id, product_category);
    assert_eq!(preference.current_range.0, 0, "new_lower should be 0.00");
    assert!(preference.current_range.1 > preference.current_range.0, "Range should be valid");
    assert_eq!(preference.current_range, range(0.0, 4.6));
}

#[test]
fn test_handle_trade_success_new_lower_calculated() {
    let (mut agent, mut logger, product_id, product_category) = setup_test_environment();
    set_range(&mut agent, 0.0, 100.0);
    let price = money(50.0);

    agent.handle_trade_success(0, product_id, product_category, price, &mut logger);

    let preference = agent.get_specific_preference(product_id, product_category);
    assert!(preference.current_range.0 > 0, "new_lower should be calculated value");
    assert!(preference.current_range.1 > preference.current_range.0, "Range should be valid");
}

#[test]
fn test_handle_trade_success_new_upper_max_with_new_lower_plus_0_1() {
    let (mut agent, mut logger, product_id, product_category) = setup_test_environment();
    set_range(&mut agent, 0.0, 0.1);
    let price = money(0.0);

    agent.handle_trade_success(0, product_id, product_category, price, &mut logger);

    let preference = agent.get_specific_preference(product_id, product_category);
    assert_eq!(preference.current_range.0, 0, "new_lower should be 0.00");
    assert_eq!(
        preference.current_range.1,
        money(0.1),
        "new_upper should be new_lower + 0.1"
    );
}

#[test]
fn test_handle_trade_success_new_upper_max_price_plus() {
    let (mut agent, mut logger, product_id, product_category) = setup_test_environment();
    set_range(&mut agent, 0.0, 100.0);
    let price = money(50.0);

    agent.handle_trade_success(0, product_id, product_category, price, &mut logger);

    let preference = agent.get_specific_preference(product_id, product_category);
    assert!(preference.current_range.1 > preference.current_range.0, "Range should be valid");
    assert!(preference.current_range.1 > price, "new_upper should be greater than price");
}

#[test]
fn a_success_ends_the_wish_and_records_it() {
    let (mut agent, mut logger, product_id, product_category) = setup_test_environment();
    logger.set_timestamp(5);
    agent.handle_trade_success(9, product_id, product_category, money(40.0), &mut logger);
    assert!(!agent.has_demand(product_id));
    assert_eq!(agent.cash(), money(60.0));
    let records = logger.take_records();
    assert_eq!(records.len(), 1);
    match &records[0] {
        LogRecord::AgentDemandRemoval(log) => {
            assert_eq!(log.removal_reason, "successful_trade");
            assert_eq!(log.round, 9);
            assert_eq!(log.timestamp, 5);
            assert_eq!(log.agent_cash, money(60.0));
            assert_eq!(log.agent_pref_current_price, Some(money(40.0)));
            assert_eq!(log.agent_pref_current_range_lower, Some(money(4.0)));
            assert_eq!(log.agent_pref_current_range_upper, Some(money(76.0)));
        }
        _ => panic!("a demand removal should be recorded"),
    }
}

#[test]
fn the_range_after_a_success_follows_the_price() {
    assert_eq!(range_after_success(range(10.0, 90.0), money(50.0)), range(14.0, 86.0));
    assert_eq!(range_after_success(range(0.0, 0.0), money(0.0)), range(0.0, 0.1));
    assert_eq!(range_after_success(range(90.0, 10.0), money(50.0)), range(48.75, 51.25));
    assert_eq!(range_after_success(range(0.0, 1.0), money(1000.0)), range(975.0, 1025.0));
    assert_eq!(
        range_after_success((0, u64::MAX), u64::MAX),
        (999_999_999_900_000, 1_000_000_000_000_000)
    );
    assert_eq!(range_after_success((3, 100_004), 1_000_000), (950_000, 1_050_000));
}

#[test]
fn the_range_after_a_failure_depends_on_where_the_offers_lay() {
    let old = range(10.0, 90.0);
    assert_eq!(range_after_failure(old, true, true, money(5.0)), range(0.0, 13.0));
    assert_eq!(range_after_failure(old, false, true, money(5.0)), range(1.4, 8.6));
    assert_eq!(range_after_failure(old, true, false, money(50.0)), range(45.6, 54.4));
    assert_eq!(range_after_failure(old, false, false, money(50.0)), old);
    assert_eq!(range_after_failure((0, 0), true, false, 0), range(0.0, 0.01));
}

#[test]
fn offers_are_told_apart_by_the_bounds_of_the_range() {
    let offers = prices(&[50.0, 90.0, 10.0]);
    assert!(!any_offer_above(&offers, money(90.0)));
    assert!(any_offer_above(&offers, money(90.0) - 1));
    assert!(!any_offer_below(&offers, money(10.0)));
    assert!(any_offer_below(&offers, money(10.0) + 1));
    assert!(!any_offer_above(&Vec::new(), 0));
    assert!(!any_offer_below(&Vec::new(), u64::MAX));
    assert_eq!(lowest_offer(money(20.0), &offers), money(10.0));
    assert_eq!(lowest_offer(money(5.0), &offers), money(5.0));
    assert_eq!(lowest_offer(money(5.0), &Vec::new()), money(5.0));
    assert_eq!(lowest_offer_seen(money(5.0), &offers), money(10.0));
    assert_eq!(lowest_offer_seen(0, &offers), money(10.0));
    assert_eq!(lowest_offer_seen(money(5.0), &Vec::new()), money(5.0));
}

#[test]
fn a_failure_looks_at_the_offers_alone() {
    let food = ProductCategory::Food;
    let mut agent = agent_with_belief(100.0, 10.0, 90.0);
    let mut logger = Logger::new("task".to_string());
    set_elastic(&mut agent, 0.0);
    agent.handle_trade_failure(
        1,
        food,
        0,
        IntervalRelation::AgentBelowFactory,
        &prices(&[5.0, 100.0]),
        &mut logger,
    );
    let preference = agent.get_specific_preference(1, food);
    assert_eq!(preference.current_range, range(0.0, 13.0));
    assert!(agent.has_demand(1));
    let records = logger.take_records();
    assert!(matches!(&records[0], LogRecord::AgentRangeAdjustment(log) if log.center == money(5.0)));
}

#[test]
fn wishes_are_picked_by_order_and_draws() {
    let entry = |category, product_id, elastic: f64| PreferenceEntry {
        category,
        product_id,
        preference: Preference::new(money(1.0), share(elastic)),
    };
    let preferences = vec![
        entry(ProductCategory::Food, 1, 0.5),
        entry(ProductCategory::Food, 2, 0.2),
        entry(ProductCategory::Water, 3, 0.0),
    ];
    let food = ProductCategory::Food;
    let mut demand = HashSet::new();
    let pick = |demand: &HashSet<u64>, order: Vec<u64>, draws: Vec<f64>| {
        let draws: Vec<u64> = draws.iter().map(|d| share(*d)).collect();
        pick_wish(&preferences, food, demand, &order, &draws)
    };
    assert_eq!(pick(&demand, vec![1, 2], vec![0.6, 0.9]), Some(1));
    assert_eq!(pick(&demand, vec![1, 2], vec![0.5, 0.9]), Some(2));
    assert_eq!(pick(&demand, vec![1, 2], vec![0.5, 0.2]), None);
    assert_eq!(pick(&demand, vec![2, 1], vec![0.3, 0.9]), Some(2));
    assert_eq!(pick(&demand, vec![3, 9, 1], vec![0.9, 0.9, 0.9]), Some(1));
    assert_eq!(pick(&demand, vec![1, 2], vec![0.4]), None);
    assert_eq!(pick(&demand, vec![], vec![]), None);
    demand.insert(1);
    assert_eq!(pick(&demand, vec![1, 2], vec![0.9, 0.9]), Some(2));
    demand.insert(2);
    assert_eq!(pick(&demand, vec![1, 2], vec![0.9, 0.9]), None);
}

#[test]
fn a_turn_of_wishing_is_taken_when_it_is_due() {
    assert_eq!(wish_schedule(100, 99, 250), (false, 100));
    assert_eq!(wish_schedule(100, 100, 250), (true, 350));
    assert_eq!(wish_schedule(0, 1000, 100), (true, 1100));
    assert_eq!(wish_schedule(0, u64::MAX, 100), (true, u64::MAX));
    for _ in 0..100 {
        let (taken, next) = wish_turn(5, 1000);
        assert!(taken);
        assert!(next >= 1100 && next < 1500);
        assert_eq!(wish_turn(2000, 1000), (false, 2000));
    }

    let products = vec![test_product(1)];
    let samples = vec![(money(10.0), share(0.0))];
    let mut agent = Agent::new(1, "a".to_string(), 0, &products, &samples, true);
    assert_eq!(agent.wish_when_due(50, 49), 50);
    assert!(!agent.has_demand(1));
    let next = agent.wish_when_due(50, 50);
    assert!(next >= 150 && next < 550);
    assert!(agent.has_demand(1));

    let mut agent = Agent::new(1, "a".to_string(), 0, &products, &samples, false);
    assert_eq!(agent.wish_when_due(50, 5000), 50);
    assert!(!agent.has_demand(1));
}

#[test]
fn no_product_gets_a_second_belief() {
    let mut agent = agent_with_belief(100.0, 10.0, 90.0);
    assert_eq!(agent.preferences().len(), 1);
    agent.set_preference(ProductCategory::Food, 1, Preference::new(3, 4));
    agent.set_preference(ProductCategory::Water, 1, Preference::new(5, 6));
    agent.set_preference(ProductCategory::Food, 1, Preference::new(7, 8));
    assert_eq!(agent.preferences().len(), 2);
    assert_eq!(agent.get_specific_preference(1, ProductCategory::Food).original_price, 7);
    assert_eq!(agent.get_specific_preference(1, ProductCategory::Water).original_price, 5);
}

#[test]
fn settling_applies_exactly_one_of_success_and_failure() {
    let food = ProductCategory::Food;
    let offers = prices(&[50.0]);

    let mut agent = agent_with_belief(100.0, 10.0, 90.0);
    let mut logger = Logger::new("task".to_string());
    agent.settling(
        1,
        food,
        2,
        TradeResult::Success(money(50.0)),
        IntervalRelation::Overlapping(money(50.0)),
        &offers,
        &mut logger,
    );
    assert_eq!(agent.cash(), money(50.0));
    assert!(!agent.has_demand(1));
    assert_eq!(agent.get_specific_preference(1, food).current_range, range(14.0, 86.0));

    let mut agent = agent_with_belief(100.0, 10.0, 90.0);
    set_elastic(&mut agent, 0.0);
    agent.settling(
        1,
        food,
        2,
        TradeResult::Failed,
        IntervalRelation::AgentBelowFactory,
        &prices(&[95.0]),
        &mut logger,
    );
    assert_eq!(agent.cash(), money(100.0));
    assert!(agent.has_demand(1));
    assert_eq!(agent.get_specific_preference(1, food).current_range, range(90.6, 99.4));

    let mut agent = agent_with_belief(30.0, 10.0, 90.0);
    set_elastic(&mut agent, 0.0);
    agent.settling(
        1,
        food,
        2,
        TradeResult::Success(money(50.0)),
        IntervalRelation::Overlapping(money(50.0)),
        &offers,
        &mut logger,
    );
    assert_eq!(agent.cash(), money(30.0));
    assert!(agent.has_demand(1));
    assert_eq!(agent.get_specific_preference(1, food).current_range, range(10.0, 90.0));

    for result in [TradeResult::NotMatched, TradeResult::NotYet] {
        let mut agent = agent_with_belief(100.0, 10.0, 90.0);
        let before = logger.len();
        agent.settling(1, food, 2, result, IntervalRelation::AgentBelowFactory, &offers, &mut logger);
        assert_eq!(agent.cash(), money(100.0));
        assert!(agent.has_demand(1));
        assert_eq!(agent.get_specific_preference(1, food).current_range, range(10.0, 90.0));
        assert_eq!(logger.len(), before);
    }

    let mut agent = agent_with_belief(100.0, 10.0, 90.0);
    let before = logger.len();
    agent.add_demand(5);
    agent.settling(
        5,
        food,
        2,
        TradeResult::Success(money(50.0)),
        IntervalRelation::Overlapping(money(50.0)),
        &offers,
        &mut logger,
    );
    assert_eq!(agent.cash(), money(100.0));
    assert!(agent.has_demand(5));
    assert_eq!(logger.len(), before);
}

#[test]
fn settling_keeps_every_range_a_proper_one() {
    let food = ProductCategory::Food;
    let mut agent = agent_with_belief(1_000_000.0, 10.0, 90.0);
    let mut logger = Logger::new("task".to_string());
    set_elastic(&mut agent, 0.0);
    let offers_in_turn = [
        vec![5.0, 100.0],
        vec![0.0],
        vec![1000.0],
        vec![0.01, 0.02],
        vec![],
        vec![500.0, 0.0],
    ];
    for (step, offers) in offers_in_turn.iter().enumerate() {
        agent.add_demand(1);
        if step % 2 == 0 {
            agent.settling(
                1,
                food,
                step as u64,
                TradeResult::Failed,
                IntervalRelation::AgentBelowFactory,
                &prices(offers),
                &mut logger,
            );
        } else {
            let price = money(offers.first().copied().unwrap_or(3.0));
            agent.settling(
                1,
                food,
                step as u64,
                TradeResult::Success(price),
                IntervalRelation::Overlapping(price),
                &prices(offers),
                &mut logger,
            );
        }
        let preference = agent.get_specific_preference(1, food);
        assert!(preference.current_range.1 > preference.current_range.0);
        assert!(preference.current_range.1 <= 1_000_000_000_000_000);
    }
}

#[test]
fn new_agents_start_with_a_proper_belief_about_each_product() {
    let products = vec![test_product(1), test_product(2), test_product(1)];
    let samples = vec![
        (money(10.0), share(0.5)),
        (money(0.000001), share(0.1)),
        (money(20.0), share(0.9)),
    ];
    for _ in 0..50 {
        let agent = Agent::new(3, "a".to_string(), 0, &products, &samples, false);
        assert_eq!(agent.preferences().len(), 2);
        let first = agent.get_specific_preference(1, ProductCategory::Food);
        assert_eq!(first.original_price, money(20.0));
        assert_eq!(first.original_elastic, share(0.9));
        assert_eq!(first.current_price, money(20.0));
        assert!(first.current_range.0 < money(15.0));
        assert!(first.current_range.0 < first.current_range.1);
        assert!(first.current_range.1 <= money(30.0));
        let second = agent.get_specific_preference(2, ProductCategory::Food);
        assert_eq!(second.original_price, 1);
        assert_eq!(second.current_range, (0, 10_000));
        assert!(!agent.has_demand(1));
        assert!(!agent.has_demand(2));
    }
}

#[test]
fn test_new_preference() {
    let preference = Preference::new(money(100.0), share(0.5));
    assert_eq!(preference.original_price, money(100.0));
    assert_eq!(preference.original_elastic, share(0.5));
    assert_eq!(preference.current_price, 0);
    assert_eq!(preference.current_range, (0, 0));
}

#[test]
fn a_first_belief_lies_below_one_and_a_half_times_the_price() {
    for _ in 0..200 {
        let preference = Preference::from_product(money(100.0), share(0.25));
        assert_eq!(preference.original_price, money(100.0));
        assert_eq!(preference.original_elastic, share(0.25));
        assert_eq!(preference.current_price, money(100.0));
        assert!(preference.current_range.0 < money(75.0));
        assert!(preference.current_range.0 < preference.current_range.1);
        assert!(preference.current_range.1 <= money(150.0));
    }
    assert_eq!(Preference::from_product(0, 0).current_range, (0, 10_000));
    let huge = Preference::from_product(u64::MAX, 0);
    assert!(huge.current_range.0 < huge.current_range.1);
    assert!(huge.current_range.1 <= 1_000_000_000_000_000);
}

#[test]
fn wishes_are_picked_among_unwanted_products_of_the_kind() {
    let entry = |category, product_id, elastic: f64| PreferenceEntry {
        category,
        product_id,
        preference: Preference::new(money(1.0), share(elastic)),
    };
    let preferences = vec![
        entry(ProductCategory::Food, 1, 0.0),
        entry(ProductCategory::Food, 2, 1.0),
        entry(ProductCategory::Water, 3, 0.0),
        entry(ProductCategory::Food, 4, 0.0),
    ];
    let mut demand = HashSet::new();
    let mut seen = HashSet::new();
    for _ in 0..200 {
        let picked = insert_demand(&preferences, ProductCategory::Food, &demand);
        let product_id = picked.expect("a product without elasticity is always wished for");
        assert!(product_id == 1 || product_id == 4);
        seen.insert(product_id);
    }
    assert_eq!(seen.len(), 2);
    demand.insert(1);
    for _ in 0..50 {
        assert_eq!(insert_demand(&preferences, ProductCategory::Food, &demand), Some(4));
    }
    demand.insert(4);
    for _ in 0..50 {
        assert_eq!(insert_demand(&preferences, ProductCategory::Food, &demand), None);
        assert_eq!(insert_demand(&preferences, ProductCategory::Clothing, &demand), None);
    }
    assert_eq!(insert_demand(&preferences, ProductCategory::Water, &demand), Some(3));
}

#[test]
fn wishing_only_adds_wishes_for_known_products() {
    let products = vec![test_product(1), test_product(2)];
    let samples = vec![(money(10.0), share(0.0)), (money(10.0), share(1.0))];
    let mut agent = Agent::new(1, "a".to_string(), money(5.0), &products, &samples, true);
    agent.add_demand(9);
    for _ in 0..20 {
        agent.desire();
        assert!(agent.has_demand(9));
        assert!(!agent.has_demand(2));
        assert!(!agent.has_demand(3));
        assert_eq!(agent.cash(), money(5.0));
        assert_eq!(agent.preferences().len(), 2);
    }
    assert!(agent.has_demand(1));
}
