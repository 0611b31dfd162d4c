use austrian_market::entity::normal_distribute::NormalDistribution;
use austrian_market::logging::{LogRecord, Logger};
use austrian_market::model::agent::{IntervalRelation, TradeResult};
use austrian_market::model::factory::financial_bill::FinancialBill;
use austrian_market::model::factory::{
    factory_shift_range_by_ratio, first_range_from_draws, get_range_change_ratio, lift_to_cost,
    offer_from_draw, plan_production, production_under_budget, rot_stock, Factory, FactoryStatus,
};
use austrian_market::model::product::{Product, ProductCategory};
use austrian_market::model::util::get_range_change_info;

fn money(units: f64) -> u64 {
    (units * 1_000_000.0).round() as u64
}

fn signed(units: f64) -> i128 {
    (units * 1_000_000.0).round() as i128
}

fn share(part: f64) -> u64 {
    (part * 1_000_000.0).round() as u64
}

fn rate(part: f64) -> i64 {
    (part * 1_000_000.0).round() as i64
}

fn range(lower: f64, upper: f64) -> (u64, u64) {
    (money(lower), money(upper))
}

fn product_with(product_id: u64, name: &str, durability: f64) -> Product {
    Product::from(
        product_id,
        name.to_string(),
        ProductCategory::Food,
        share(durability),
        NormalDistribution::new(money(10.0), product_id, "price_dist".to_string(), money(2.0)),
        NormalDistribution::new(money(0.5), product_id, "elastic_dist".to_string(), money(0.1)),
        NormalDistribution::new(money(5.0), product_id, "cost_dist".to_string(), money(1.0)),
    )
}

fn test_product(product_id: u64) -> Product {
    product_with(product_id, "test_product", 1.0)
}

fn new_factory(id: u64, name: &str, product: &Product) -> Factory {
    Factory::new(id, name.to_string(), product, money(10.0), money(5.0), money(100.0))
}

fn factory_with_stock(stock: u16) -> (Factory, Logger) {
    let mut factory = new_factory(1, "test_factory", &test_product(1));
    factory.set_supply_price_range(range(100.0, 200.0));
    factory.set_product_cost(money(1.0));
    factory.set_cash(money(1000.0));
    factory.start_round(1);
    factory.set_stock(1, stock);
    (factory, Logger::new("task".to_string()))
}

fn last_bill(initial_stock: u16, remaining_stock: u16, total_production: u16, units_sold: u16) -> FinancialBill {
    let mut bill = FinancialBill::new(0);
    bill.set_initial_stock(initial_stock);
    bill.set_remaining_stock(remaining_stock);
    bill.set_total_production(total_production);
    bill.set_units_sold(units_sold);
    bill
}

#[test]
fn factory_test_new() {
    let product = test_product(1);
    let factory = new_factory(1, "test_factory", &product);

    assert_eq!(factory.id(), 1);
    assert_eq!(factory.name(), "test_factory");
    assert_eq!(factory.product_id(), 1);
    assert_eq!(factory.stock_rounds().len(), 0);
    assert_eq!(factory.stock_of(1), None);
    assert!(factory.cash() > 0);
    let (lower, upper) = factory.supply_price_range();
    assert!(upper > lower);
    assert!(lower >= factory.product_cost());
    assert!(lower < money(10.0));
    assert!(upper <= money(20.0));
}

#[test]
fn test_id() {
    let factory = new_factory(42, "test_factory", &test_product(1));
    assert_eq!(factory.id(), 42);
}

#[test]
fn test_name() {
    let factory = new_factory(1, "my_factory", &test_product(1));
    assert_eq!(factory.name(), "my_factory");
}

#[test]
fn test_product_id() {
    let factory = new_factory(1, "test_factory", &test_product(5));
    assert_eq!(factory.product_id(), 5);
}

#[test]
fn test_supply_price_range() {
    let factory = new_factory(1, "test_factory", &test_product(1));
    let (lower, upper) = factory.supply_price_range();
    assert!(upper > lower);
}

#[test]
fn a_new_factory_keeps_its_samples_within_bounds() {
    let product = product_with(3, "salt", 0.25);
    for _ in 0..100 {
        let factory = Factory::new(9, "f".to_string(), &product, 0, 0, 0);
        assert_eq!(factory.product_cost(), money(0.1));
        assert_eq!(factory.cash(), money(100.0));
        assert_eq!(factory.durability(), share(0.25));
        assert_eq!(factory.product_category(), ProductCategory::Food);
        assert_eq!(factory.status(), FactoryStatus::Active);
        assert_eq!(factory.get_initial_stock(), 0);
        assert_eq!(factory.get_stock(1), 10);
        assert_eq!(factory.bills_len(), 1);
        assert_eq!(factory.get_round_bill(0).cash, money(100.0));
        assert!(factory.risk_appetite() >= share(0.1) && factory.risk_appetite() < share(0.9));
        let (lower, upper) = factory.supply_price_range();
        assert!(lower >= money(0.1) && lower < money(1.0));
        assert!(lower < upper && upper <= money(1.6));
    }
    let factory = Factory::new(9, "f".to_string(), &product, u64::MAX, u64::MAX, u64::MAX);
    assert_eq!(factory.product_cost(), 999_999_999_990_000);
    assert_eq!(factory.cash(), u64::MAX);
    let (lower, upper) = factory.supply_price_range();
    assert_eq!(lower, 999_999_999_990_000);
    assert!(lower < upper && upper <= 1_000_000_000_000_000);
    let factory = Factory::new(9, "f".to_string(), &product, 0, money(7.0), money(25.0));
    assert_eq!(factory.product_cost(), money(7.0));
    assert_eq!(factory.cash(), money(250.0));
}

#[test]
fn a_new_factory_asks_its_cost_or_more() {
    let product = test_product(1);
    for _ in 0..200 {
        let factory = Factory::new(1, "f".to_string(), &product, money(1.0), money(80.0), 0);
        let (lower, upper) = factory.supply_price_range();
        assert_eq!(lower, money(80.0));
        assert!(upper > lower && upper <= money(81.5));
        let factory = Factory::new(1, "f".to_string(), &product, money(100.0), money(20.0), 0);
        let (lower, upper) = factory.supply_price_range();
        assert!(lower >= money(20.0) && lower < money(100.0));
        assert!(upper > lower && upper <= money(170.0));
    }
    assert_eq!(first_range_from_draws(money(3.0), money(9.0), money(1.0)), range(3.0, 9.0));
    assert_eq!(first_range_from_draws(money(3.0), money(9.0), money(5.0)), range(5.0, 11.0));
    assert_eq!(first_range_from_draws(money(3.0), money(3.0), money(5.0)), range(5.0, 5.01));
    assert_eq!(first_range_from_draws(0, 0, money(0.1)), range(0.1, 0.11));
    assert_eq!(lift_to_cost(range(3.0, 9.0), money(3.0)), range(3.0, 9.0));
    assert_eq!(
        lift_to_cost((0, 1_000_000_000_000_000), 999_999_999_990_000),
        (999_999_999_990_000, 1_000_000_000_000_000)
    );
}

#[test]
fn a_round_started_again_keeps_its_stock_in_the_window() {
    let mut factory = new_factory(1, "test_factory", &test_product(1));
    for _ in 0..4 {
        factory.start_round(1);
        assert_eq!(factory.stock_rounds(), vec![1]);
        assert_eq!(factory.stock_of(1), Some(factory.get_initial_stock()));
        assert_eq!(factory.get_stock(1), factory.get_initial_stock());
        assert_eq!(factory.get_round_bill(1).initial_stock, factory.get_initial_stock());
    }
    factory.start_round(2);
    factory.start_round(1);
    factory.start_round(3);
    assert_eq!(factory.stock_rounds(), vec![1, 2, 3]);
    factory.start_round(2);
    factory.start_round(4);
    assert_eq!(factory.stock_rounds(), vec![2, 3, 4]);
    assert_eq!(factory.stock_of(1), None);
    factory.set_stock(3, 7);
    assert_eq!(factory.stock_rounds(), vec![2, 3, 4]);
    assert_eq!(factory.stock_of(3), Some(7));
}

#[test]
fn test_start_round_branch1() {
    let mut factory = new_factory(1, "test_factory", &test_product(1));

    factory.start_round(1);

    let actual_production = factory.stock_of(1).unwrap();
    assert_eq!(
        actual_production, 1,
        "Branch 1: When last_round_initial_stock == 0, production should be 1"
    );
    assert_eq!(factory.get_initial_stock(), 1);
    assert_eq!(factory.cash(), money(1000.0) - money(5.0));
    let bill = factory.get_round_bill(1);
    assert_eq!(bill.cash, money(995.0));
    assert_eq!(bill.initial_stock, 1);
    assert_eq!(bill.total_production, 1);
}

#[test]
fn test_start_round_branch2() {
    let mut factory = new_factory(1, "test_factory", &test_product(1));
    factory.set_risk_appetite(share(0.5));
    factory.set_round_bill(1, last_bill(100, 0, 100, 100));
    let last_remaining_stock = 0;
    factory.set_cash(money(100000.0));
    factory.set_product_cost(money(1.0));

    let current_round = 2;
    factory.start_round(current_round);

    let actual_initial_stock = factory.stock_of(current_round).unwrap();
    let last_initial_stock = 100;
    let expected_min = (last_initial_stock as f64 * 1.1) as u16;
    let expected_max = (last_initial_stock as f64 * 1.5) as u16;
    let actual_production = actual_initial_stock - last_remaining_stock;
    assert!(
        actual_production >= expected_min,
        "Branch 2: When stock is sold out, production should be at least 1.1x last initial stock"
    );
    assert!(
        actual_production <= expected_max,
        "Branch 2: When stock is sold out, production should be at most 1.5x last initial stock"
    );
    assert_eq!(actual_production, 130);
    assert_eq!(factory.cash(), money(100000.0 - 130.0));
    let bill = factory.get_round_bill(current_round);
    assert_eq!(bill.cash, money(100000.0 - 130.0));
    assert_eq!(bill.initial_stock, 130);
    assert_eq!(bill.total_production, 130);
}

#[test]
fn test_start_round_branch3_1() {
    let mut factory = new_factory(1, "test_factory", &test_product(1));
    factory.set_round_bill(1, last_bill(100, 20, 100, 80));
    factory.set_cash(money(100000.0));
    factory.set_product_cost(money(1.0));

    factory.start_round(2);

    let actual_initial_stock = factory.stock_of(2).unwrap();
    let expected_initial_stock = 20 + 100;
    assert_eq!(
        actual_initial_stock, expected_initial_stock,
        "Branch 3.1: When there is remaining stock, should keep stable production"
    );
}

#[test]
fn test_start_round_branch3_2() {
    let mut factory = new_factory(1, "test_factory", &test_product(1));
    factory.set_round_bill(1, last_bill(50, 40, 50, 10));
    factory.set_cash(money(100000.0));
    factory.set_product_cost(money(1.0));

    factory.start_round(2);

    let actual_initial_stock = factory.stock_of(2).unwrap();
    let expected_initial_stock = 40 + 50;
    assert_eq!(
        actual_initial_stock, expected_initial_stock,
        "Branch 3.2: When there is remaining stock, should keep stable production"
    );
}

#[test]
fn test_start_round_branch4_1() {
    let mut factory = new_factory(1, "test_factory", &test_product(1));
    factory.set_round_bill(1, last_bill(100, 20, 100, 80));
    factory.set_cash(money(100000.0));
    factory.set_product_cost(money(1.0));

    factory.start_round(2);

    let actual_initial_stock = factory.stock_of(2).unwrap();
    let expected_initial_stock = 20 + 100;
    assert_eq!(
        actual_initial_stock, expected_initial_stock,
        "Branch 4.1: When budget is sufficient, should keep stable production"
    );
}

#[test]
fn test_start_round_branch4_2() {
    let mut factory = new_factory(1, "test_factory", &test_product(1));
    factory.set_round_bill(1, last_bill(100, 20, 100, 80));
    let last_remaining_stock: u16 = 20;
    let initial_cash = 10.0;
    factory.set_cash(money(initial_cash));
    factory.set_product_cost(money(1.0));
    factory.set_risk_appetite(share(0.5));

    factory.start_round(2);

    let actual_initial_stock = factory.stock_of(2).unwrap();
    let production_under_budget = (initial_cash * 0.5 / 1.0) as u16;
    let prediction_production: u16 = 100;
    let need_production = prediction_production.min(production_under_budget);
    let expected_initial_stock = last_remaining_stock + need_production;
    assert_eq!(
        actual_initial_stock, expected_initial_stock,
        "Branch 4.2: When budget is insufficient, initial_stock should match expected value"
    );
    assert!(actual_initial_stock > 0, "Branch 4.2: Initial_stock should be greater than 0");
    assert_eq!(factory.cash(), money(5.0));
}

#[test]
fn test_start_round_queue_management() {
    let mut factory = new_factory(1, "test_factory", &test_product(1));

    for round in 1..=5 {
        factory.start_round(round);
        assert!(factory.stock_rounds().len() <= 3);
        assert!(factory.bills_len() <= 20);
    }

    assert_eq!(factory.stock_rounds().len(), 3);
    assert!(factory.stock_of(3).is_some());
    assert!(factory.stock_of(4).is_some());
    assert!(factory.stock_of(5).is_some());
    assert!(factory.stock_of(1).is_none());
    assert!(factory.stock_of(2).is_none());
    assert_eq!(factory.stock_rounds(), vec![3, 4, 5]);
    assert_eq!(factory.get_stock(2), 10);
}

#[test]
fn many_rounds_never_fill_the_books_beyond_twenty_bills() {
    let mut factory = new_factory(1, "test_factory", &test_product(1));
    let mut logger = Logger::new("task".to_string());
    for round in 1..=60 {
        factory.start_round(round);
        factory.deal(&TradeResult::Success(money(3.0)), round, None, &mut logger);
        factory.settling_after_round(round);
        assert!(factory.stock_rounds().len() <= 3);
        assert!(factory.bills_len() <= 20);
    }
    assert_eq!(factory.bills_len(), 20);
    assert_eq!(factory.stock_rounds(), vec![58, 59, 60]);
}

#[test]
fn test_deal() {
    let (mut factory, mut logger) = factory_with_stock(10);
    let initial_range = factory.supply_price_range();

    factory.deal(&TradeResult::Success(money(150.0)), 1, None, &mut logger);
    let success_range = factory.supply_price_range();
    assert!(success_range.0 > initial_range.0 && success_range.1 > initial_range.1);
    assert_eq!(success_range, range(101.0, 202.0));

    factory.deal(&TradeResult::Failed, 1, None, &mut logger);
    let failure_range = factory.supply_price_range();
    assert!(failure_range.0 < success_range.0 && failure_range.1 < success_range.1);
    assert!(failure_range.0 >= factory.product_cost());
    assert_eq!(failure_range, range(99.99, 199.98));

    factory.deal(&TradeResult::NotMatched, 1, None, &mut logger);
    let after_not_matched = factory.supply_price_range();
    assert_eq!(after_not_matched, failure_range);
}

#[test]
fn a_success_then_a_failure_with_a_price_in_range() {
    let (mut factory, mut logger) = factory_with_stock(10);
    let before = factory.supply_price_range();
    factory.deal(
        &TradeResult::Success(money(150.0)),
        1,
        Some(IntervalRelation::Overlapping(money(150.0))),
        &mut logger,
    );
    let after_success = factory.supply_price_range();
    assert!(after_success.0 > before.0 && after_success.1 > before.1);
    factory.deal(
        &TradeResult::Failed,
        1,
        Some(IntervalRelation::Overlapping(money(150.0))),
        &mut logger,
    );
    let after_failure = factory.supply_price_range();
    assert!(after_failure.0 < after_success.0 && after_failure.1 < after_success.1);
    assert!(after_failure.0 >= factory.product_cost());
    assert!(after_failure.1 > after_failure.0);
}

#[test]
fn test_deal_with_interval_relation() {
    let (mut factory, mut logger) = factory_with_stock(10);

    factory.deal(
        &TradeResult::Failed,
        1,
        Some(IntervalRelation::Overlapping(money(100.0))),
        &mut logger,
    );
    assert_eq!(factory.supply_price_range(), range(99.0, 198.0));

    factory.deal(
        &TradeResult::Failed,
        1,
        Some(IntervalRelation::AgentBelowFactory),
        &mut logger,
    );
    assert_eq!(factory.supply_price_range(), range(98.01, 196.02));

    factory.deal(
        &TradeResult::Failed,
        1,
        Some(IntervalRelation::AgentAboveFactory),
        &mut logger,
    );
    let after_above = factory.supply_price_range();
    assert!(after_above.1 > after_above.0, "Upper bound should be > lower bound");
    assert_eq!(after_above, range(98.99, 197.98));

    factory.deal(&TradeResult::Failed, 1, Some(IntervalRelation::CashBurnedOut), &mut logger);
    assert_eq!(factory.supply_price_range(), range(98.99, 197.98));
    assert_eq!(factory.get_stock(1), 10);
    assert_eq!(factory.cash(), money(1000.0) - money(1.0));
}

#[test]
fn test_deal_with_small_range() {
    let mut factory = new_factory(1, "test_factory", &test_product(1));
    let mut logger = Logger::new("task".to_string());
    factory.set_supply_price_range(range(0.0, 1.0));

    factory.start_round(1);
    factory.deal(&TradeResult::Failed, 1, None, &mut logger);

    let after_failure = factory.supply_price_range();
    assert!(after_failure.1 > after_failure.0);
    assert!(after_failure.0 >= factory.product_cost());
    assert_eq!(after_failure, range(5.0, 5.99));
}

#[test]
fn test_deal_with_inventory() {
    let mut factory = new_factory(1, "test_factory", &test_product(1));
    let mut logger = Logger::new("task".to_string());
    factory.set_supply_price_range(range(100.0, 200.0));
    factory.set_cash(money(10000.0));
    factory.set_product_cost(money(100.0));

    let current_round = 1;
    factory.start_round(current_round);
    let expected_initial_inventory = 100;
    factory.set_stock(current_round, expected_initial_inventory);

    factory.deal(&TradeResult::Success(money(150.0)), current_round, None, &mut logger);
    factory.deal(&TradeResult::Success(money(150.0)), current_round, None, &mut logger);
    factory.deal(&TradeResult::Success(money(150.0)), current_round, None, &mut logger);

    assert_eq!(factory.get_stock(current_round), expected_initial_inventory - 3);
}

#[test]
fn test_deal_with_zero_inventory() {
    let mut factory = new_factory(1, "test_factory", &test_product(1));
    let mut logger = Logger::new("task".to_string());
    let initial_range = range(100.0, 200.0);
    factory.set_supply_price_range(initial_range);
    factory.set_cash(money(1000.0));

    let current_round = 1;
    factory.start_round(current_round);
    factory.set_stock(current_round, 0);
    assert_eq!(factory.stock_of(current_round), Some(0));
    let cash = factory.cash();

    factory.deal(&TradeResult::Success(money(150.0)), current_round, None, &mut logger);
    factory.deal(&TradeResult::Failed, current_round, None, &mut logger);

    assert_eq!(factory.stock_of(current_round), Some(0));
    assert_eq!(factory.supply_price_range(), initial_range);
    assert_eq!(factory.cash(), cash);
    assert_eq!(logger.len(), 0);
}

#[test]
fn test_cash_update_after_success() {
    let (mut factory, mut logger) = factory_with_stock(10);

    let cash_before_deal = factory.cash();
    let deal_price = money(150.0);
    factory.deal(&TradeResult::Success(deal_price), 1, None, &mut logger);
    assert_eq!(factory.cash(), cash_before_deal + deal_price);
    assert_eq!(factory.get_stock(1), 9);

    let cash_before_second_deal = factory.cash();
    let second_deal_price = money(160.0);
    factory.deal(&TradeResult::Success(second_deal_price), 1, None, &mut logger);
    assert_eq!(factory.cash(), cash_before_second_deal + second_deal_price);
    assert_eq!(factory.get_stock(1), 8);

    let cash_before_failed_deal = factory.cash();
    factory.deal(&TradeResult::Failed, 1, None, &mut logger);
    assert_eq!(factory.cash(), cash_before_failed_deal);
    assert_eq!(factory.get_stock(1), 8);
}

#[test]
fn idle_outcomes_change_nothing() {
    for result in [TradeResult::NotMatched, TradeResult::NotYet] {
        let (mut factory, mut logger) = factory_with_stock(10);
        let range_before = factory.supply_price_range();
        let cash_before = factory.cash();
        for relation in [
            None,
            Some(IntervalRelation::AgentAboveFactory),
            Some(IntervalRelation::AgentBelowFactory),
            Some(IntervalRelation::CashBurnedOut),
            Some(IntervalRelation::Overlapping(7)),
        ] {
            factory.deal(&result, 1, relation, &mut logger);
            factory.deal(&result, 2, relation, &mut logger);
        }
        assert_eq!(factory.supply_price_range(), range_before);
        assert_eq!(factory.cash(), cash_before);
        assert_eq!(factory.get_stock(1), 10);
        assert_eq!(factory.stock_rounds(), vec![1]);
        assert_eq!(logger.len(), 0);
    }
}

#[test]
fn a_success_in_a_round_not_started_leaves_the_stock_alone() {
    let (mut factory, mut logger) = factory_with_stock(10);
    factory.deal(&TradeResult::Success(money(2.0)), 7, None, &mut logger);
    assert_eq!(factory.get_stock(7), 10);
    assert_eq!(factory.stock_of(7), None);
    assert_eq!(factory.get_stock(1), 10);
    assert_eq!(factory.supply_price_range(), range(101.0, 202.0));
}

#[test]
fn cash_stops_at_the_largest_amount() {
    let (mut factory, mut logger) = factory_with_stock(10);
    factory.set_cash(u64::MAX - 1);
    factory.deal(&TradeResult::Success(5), 1, None, &mut logger);
    assert_eq!(factory.cash(), u64::MAX);
    assert_eq!(factory.get_stock(1), 9);
}

#[test]
fn every_move_of_the_range_is_recorded() {
    let (mut factory, mut logger) = factory_with_stock(10);
    logger.set_timestamp(1234);
    factory.deal(&TradeResult::Success(money(150.0)), 1, None, &mut logger);
    factory.deal(
        &TradeResult::Failed,
        1,
        Some(IntervalRelation::AgentAboveFactory),
        &mut logger,
    );
    let records = logger.take_records();
    assert_eq!(records.len(), 2);
    match &records[0] {
        LogRecord::FactoryRangeOptimization(log) => {
            assert_eq!(log.timestamp, 1234);
            assert_eq!(log.round, 1);
            assert_eq!(log.task_id, "task");
            assert_eq!(log.factory_id, 1);
            assert_eq!(log.factory_name, "test_factory");
            assert_eq!(log.product_id, 1);
            assert_eq!(log.product_category, "Food");
            assert_eq!((log.old_range_lower, log.old_range_upper), range(100.0, 200.0));
            assert_eq!((log.new_range_lower, log.new_range_upper), range(101.0, 202.0));
            assert_eq!(log.lower_change, signed(1.0));
            assert_eq!(log.upper_change, signed(2.0));
            assert_eq!(log.total_change, signed(3.0));
            assert_eq!(log.lower_change_ratio, 10_000);
            assert_eq!(log.upper_change_ratio, 20_000);
            assert_eq!(log.trade_result, "Success");
        }
        _ => panic!("a move of the range should be recorded"),
    }
    match &records[1] {
        LogRecord::FactoryRangeOptimization(log) => {
            assert_eq!((log.old_range_lower, log.old_range_upper), range(101.0, 202.0));
            assert_eq!((log.new_range_lower, log.new_range_upper), range(102.01, 204.02));
            assert_eq!(log.trade_result, "Failed");
        }
        _ => panic!("a move of the range should be recorded"),
    }
}

#[test]
fn test_get_range_change_ratio() {
    let ratio_none = get_range_change_ratio(None);
    assert_eq!(ratio_none, rate(-0.01));

    let ratio_overlapping = get_range_change_ratio(Some(IntervalRelation::Overlapping(money(10.0))));
    assert_eq!(ratio_overlapping, rate(-0.01));

    let ratio_below = get_range_change_ratio(Some(IntervalRelation::AgentBelowFactory));
    assert_eq!(ratio_below, rate(-0.01));

    let ratio_above = get_range_change_ratio(Some(IntervalRelation::AgentAboveFactory));
    assert_eq!(ratio_above, rate(0.01));

    assert_eq!(get_range_change_ratio(Some(IntervalRelation::CashBurnedOut)), 0);
}

#[test]
fn test_get_range_change_info() {
    let cases: Vec<((f64, f64), (f64, f64), f64, f64, f64, f64, f64)> = vec![
        ((100.0, 200.0), (90.0, 210.0), -0.1, 0.1, 0.0, -10.0, 10.0),
        ((100.0, 200.0), (110.0, 190.0), 0.1, -0.1, 0.0, 10.0, -10.0),
        ((100.0, 200.0), (110.0, 210.0), 0.1, 0.1, 20.0, 10.0, 10.0),
        ((100.0, 200.0), (90.0, 190.0), -0.1, -0.1, -20.0, -10.0, -10.0),
        ((150.0, 150.0), (140.0, 160.0), 0.0, 0.0, 0.0, -10.0, 10.0),
        ((100.0, 200.0), (100.0, 200.0), 0.0, 0.0, 0.0, 0.0, 0.0),
    ];
    for (old_range, new_range, lower_ratio, upper_ratio, total, lower, upper) in cases {
        let result = get_range_change_info(
            range(old_range.0, old_range.1),
            range(new_range.0, new_range.1),
        );
        assert_eq!(result.lower_change_ratio, signed(lower_ratio));
        assert_eq!(result.upper_change_ratio, signed(upper_ratio));
        assert_eq!(result.total_change, signed(total));
        assert_eq!(result.lower_change, signed(lower));
        assert_eq!(result.upper_change, signed(upper));
    }
}

#[test]
fn test_factory_shift_range_by_ratio() {
    let result = factory_shift_range_by_ratio(range(100.0, 200.0), money(50.0), rate(0.01));
    assert_eq!(result, range(101.0, 202.0));

    let min_cost = money(105.0);
    let result = factory_shift_range_by_ratio(range(100.0, 200.0), min_cost, rate(-0.1));
    assert_eq!(result.0, min_cost);
    assert_eq!(result.1, min_cost + money(90.0));

    let result = factory_shift_range_by_ratio(range(200.0, 300.0), money(150.0), rate(-0.1));
    assert_eq!(result, range(180.0, 270.0));

    let result = factory_shift_range_by_ratio(range(100.0, 200.0), money(50.0), 0);
    assert_eq!(result, range(100.0, 200.0));

    let result = factory_shift_range_by_ratio(range(100.0, 200.0), money(100.0), rate(0.05));
    assert_eq!(result, range(105.0, 210.0));

    let result = factory_shift_range_by_ratio(range(0.01, 0.02), money(0.01), rate(0.1));
    assert!(result.0 >= money(0.01));
    assert!(result.1 > result.0);
    assert!(result.1 >= money(0.02));

    let min_cost = money(90.0);
    let result = factory_shift_range_by_ratio(range(100.0, 200.0), min_cost, rate(-0.1));
    assert_eq!(result.0, min_cost);
    assert_eq!(result.1, min_cost + money(90.0));

    let result = factory_shift_range_by_ratio(
        (999_999_999_000_000, 1_000_000_000_000_000),
        999_999_999_990_000,
        0,
    );
    assert_eq!(result, (999_999_999_990_000, 1_000_000_000_000_000));
}

#[test]
fn test_factory_product_category() {
    let factory = new_factory(1, "Test Factory", &product_with(1, "aaaa", 1.0));
    assert_eq!(factory.product_category(), ProductCategory::Food);
}

#[test]
fn test_factory_setting_after_round() {
    let product = Product::from(
        1,
        "aaaa".to_string(),
        ProductCategory::Food,
        share(0.5),
        NormalDistribution::random(1, "aaaa_price_dist".to_string(), Some(0), Some(money(1.0))),
        NormalDistribution::random(1, "aaaa_elastic_dist".to_string(), Some(0), Some(money(1.0))),
        NormalDistribution::random(1, "aaaa_cost_dist".to_string(), Some(0), Some(money(1.0))),
    );
    let mut factory = new_factory(1, "Test Factory", &product);
    let mut bill = factory.get_round_bill(1);
    bill.set_cash(money(100.0));
    bill.set_initial_stock(10);
    bill.set_production_cost(money(20.0));
    factory.set_round_bill(1, bill);
    factory.set_stock(1, 6);
    factory.set_cash(money(51.0));

    factory.settling_after_round(1);

    let bill = factory.get_round_bill(1);
    assert_eq!(bill.cash, money(51.0));
    assert_eq!(bill.revenue, signed(49.0));
    assert_eq!(bill.initial_stock, 10);
    assert_eq!(bill.remaining_stock, 3);
    assert_eq!(bill.units_sold, 4);
    assert_eq!(bill.rot_stock, 3);
    assert_eq!(bill.profit, signed(49.0) - 7 * factory.product_cost() as i128);
    assert_eq!(bill.production_cost, money(20.0));
    assert_eq!(factory.get_stock(1), 6);
}

#[test]
fn settling_a_round_that_was_not_started_books_no_sale() {
    let mut factory = new_factory(1, "f", &product_with(1, "p", 0.0));
    factory.settling_after_round(4);
    let bill = factory.get_round_bill(4);
    assert_eq!(bill.units_sold, 0);
    assert_eq!(bill.rot_stock, 0);
    assert_eq!(bill.remaining_stock, 0);
    assert_eq!(bill.revenue, -(money(1000.0) as i128));
    assert_eq!(bill.profit, -(money(1000.0) as i128));
    assert_eq!(bill.cash, money(1000.0));
}

#[test]
fn unsold_units_rot_by_the_share_that_does_not_keep() {
    assert_eq!(rot_stock(6, share(0.5)), 3);
    assert_eq!(rot_stock(7, share(0.5)), 3);
    assert_eq!(rot_stock(10, share(1.0)), 0);
    assert_eq!(rot_stock(10, share(0.0)), 10);
    assert_eq!(rot_stock(10, share(7.0)), 0);
    assert_eq!(rot_stock(65535, 1), 65534);
    assert_eq!(rot_stock(0, 0), 0);
}

#[test]
fn production_follows_the_last_bill_as_far_as_the_cash_goes() {
    assert_eq!(plan_production(&last_bill(0, 0, 0, 0), share(0.5)), 1);
    assert_eq!(plan_production(&last_bill(0, 9, 9, 9), share(0.5)), 1);
    assert_eq!(plan_production(&last_bill(100, 0, 100, 100), share(0.0)), 110);
    assert_eq!(plan_production(&last_bill(100, 0, 100, 100), share(0.5)), 130);
    assert_eq!(plan_production(&last_bill(100, 0, 100, 100), share(1.0)), 150);
    assert_eq!(plan_production(&last_bill(3, 0, 3, 3), share(0.5)), 3);
    assert_eq!(plan_production(&last_bill(65535, 0, 1, 1), share(0.5)), 65535);
    assert_eq!(plan_production(&last_bill(100, 20, 70, 80), share(0.5)), 70);
    assert_eq!(plan_production(&last_bill(100, 20, 0, 80), share(0.5)), 1);

    assert_eq!(production_under_budget(money(10.0), share(0.5), money(1.0)), 5);
    assert_eq!(production_under_budget(money(10.0), share(0.5), money(3.0)), 1);
    assert_eq!(production_under_budget(money(10.0), share(0.5), money(6.0)), 0);
    assert_eq!(production_under_budget(0, share(0.5), 1), 0);
    assert_eq!(production_under_budget(u64::MAX, share(1.0), 1), 65535);
    assert_eq!(production_under_budget(money(100.0), 0, money(1.0)), 0);
}

#[test]
fn an_asking_price_is_a_draw_rounded_to_the_cent() {
    assert_eq!(offer_from_draw(money(12.344), range(10.0, 20.0)), money(12.34));
    assert_eq!(offer_from_draw(money(12.345), range(10.0, 20.0)), money(12.35));
    let mut factory = new_factory(1, "f", &test_product(1));
    factory.set_supply_price_range(range(100.0, 200.0));
    for _ in 0..200 {
        let price = factory.offer_price(1);
        assert!(price >= money(100.0) && price <= money(200.0));
        assert_eq!(price % money(0.01), 0);
    }
    factory.set_supply_price_range(range(7.0, 7.0));
    assert_eq!(factory.offer_price(1), money(7.0));
    factory.set_supply_price_range(range(7.0, 3.0));
    assert_eq!(factory.offer_price(1), money(7.0));
}

#[test]
fn the_status_can_be_set() {
    let mut factory = new_factory(1, "f", &test_product(1));
    factory.set_status(FactoryStatus::Inactive);
    assert_eq!(factory.status(), FactoryStatus::Inactive);
    factory.set_status(FactoryStatus::Active);
    assert_eq!(factory.status(), FactoryStatus::Active);
}
