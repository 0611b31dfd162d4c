use austrian_market::model::util::{
    finish_random_range, gen_new_range_with_price, gen_price_in_range, generate_random_range,
    get_range_change_info, interval_intersection, price_from_draw, round_to_nearest_cent,
    shift_range_by_ratio,
};

fn money(units: f64) -> u64 {
    (units * 1_000_000.0).round() as u64
}

fn signed(units: f64) -> i64 {
    (units * 1_000_000.0).round() as i64
}

fn range(lower: f64, upper: f64) -> (u64, u64) {
    (money(lower), money(upper))
}

fn rate(share: f64) -> u64 {
    (share * 1_000_000.0).round() as u64
}

#[test]
fn test_interval_intersection_overlap() {
    assert_eq!(
        interval_intersection(range(1.0, 5.0), range(1.0, 5.0)),
        Some(range(1.0, 5.0))
    );
    assert_eq!(
        interval_intersection(range(1.0, 3.0), range(2.0, 4.0)),
        Some(range(2.0, 3.0))
    );
    assert_eq!(
        interval_intersection(range(2.0, 4.0), range(1.0, 3.0)),
        Some(range(2.0, 3.0))
    );
    assert_eq!(
        interval_intersection(range(1.0, 5.0), range(2.0, 3.0)),
        Some(range(2.0, 3.0))
    );
    assert_eq!(
        interval_intersection(range(2.0, 3.0), range(1.0, 5.0)),
        Some(range(2.0, 3.0))
    );
}

#[test]
fn test_interval_intersection_no_overlap() {
    assert_eq!(interval_intersection(range(1.0, 2.0), range(3.0, 4.0)), None);
    assert_eq!(interval_intersection(range(3.0, 4.0), range(1.0, 2.0)), None);
}

#[test]
fn test_interval_intersection_touching() {
    assert_eq!(
        interval_intersection(range(1.0, 2.0), range(2.0, 3.0)),
        Some(range(2.0, 2.0))
    );
    assert_eq!(
        interval_intersection(range(2.0, 3.0), range(1.0, 2.0)),
        Some(range(2.0, 2.0))
    );
}

#[test]
fn test_interval_intersection_same_point() {
    assert_eq!(
        interval_intersection(range(2.0, 2.0), range(2.0, 2.0)),
        Some(range(2.0, 2.0))
    );
    assert_eq!(
        interval_intersection(range(2.0, 2.0), range(1.0, 3.0)),
        Some(range(2.0, 2.0))
    );
    assert_eq!(interval_intersection(range(2.0, 2.0), range(3.0, 4.0)), None);
}

#[test]
fn test_generate_random_range_normal() {
    for _ in 0..100 {
        let (min, max) = generate_random_range(signed(0.0), signed(100.0));
        assert!(max > min, "max should be greater than min: {} > {}", max, min);
        assert!(max <= money(100.0), "max should be <= 100.0: {}", max);
    }
}

#[test]
fn test_generate_random_range_negative_min() {
    for _ in 0..100 {
        let (min, max) = generate_random_range(signed(-100.0), signed(100.0));
        assert!(max > min, "max should be greater than min: {} > {}", max, min);
        assert!(max <= money(100.0), "max should be <= 100.0: {}", max);
    }
}

#[test]
fn test_generate_random_range_small_range() {
    for _ in 0..100 {
        let (min, max) = generate_random_range(signed(50.0), signed(50.01));
        assert!(max > min, "max should be greater than min: {} > {}", max, min);
        assert!(max <= money(50.01), "max should be <= 50.01: {}", max);
    }
}

#[test]
fn test_generate_random_range_zero_max() {
    for _ in 0..100 {
        let (min, max) = generate_random_range(signed(0.0), signed(0.0));
        assert!(max > min, "max should be greater than min: {} > {}", max, min);
        assert!(
            max <= money(0.01),
            "max should be small when input max is 0: {}",
            max
        );
    }
}

#[test]
fn test_generate_random_range_large_values() {
    for _ in 0..100 {
        let (min, max) = generate_random_range(signed(1000.0), signed(10000.0));
        assert!(max > min, "max should be greater than min: {} > {}", max, min);
        assert!(max <= money(10000.0), "max should be <= 10000.0: {}", max);
    }
}

#[test]
fn test_gen_price_in_range() {
    for _ in 0..100 {
        let range = range(10.0, 20.0);
        let cash = money(30.0);
        let result = gen_price_in_range(range, cash);
        assert!(result.is_some(), "Result should be Some when cash is sufficient");
        let price = result.unwrap();
        assert!(price >= range.0, "Price should be >= range min: {} >= {}", price, range.0);
        assert!(price <= range.1, "Price should be <= range max: {} <= {}", price, range.1);
        assert!(price <= cash, "Price should be <= cash: {} <= {}", price, cash);
    }

    let bounds = range(10.0, 20.0);
    let cash = money(15.0);
    let mut success_count = 0;
    let mut cases_within_range = 0;
    for _ in 0..1000 {
        let result = gen_price_in_range(bounds, cash);
        assert!(result.is_some(), "Result should be Some when cash is in range");
        let price = result.unwrap();
        assert!(price >= bounds.0, "Price should be >= range min: {} >= {}", price, bounds.0);
        assert!(price <= bounds.1, "Price should be <= range max: {} <= {}", price, bounds.1);
        if price == cash {
            success_count += 1;
        }
        cases_within_range += 1;
    }
    assert!(
        cases_within_range > 0,
        "Should have cases where price > cash but cash is in range"
    );
    assert!(
        success_count > 0,
        "Should have cases where price is set to cash when price > cash"
    );

    let result = gen_price_in_range(range(10.0, 20.0), money(5.0));
    assert!(result.is_none(), "Result should be None when cash is below range");

    let result = gen_price_in_range(range(10.0, 20.0), money(25.0));
    assert!(result.is_some(), "Result should be Some when cash is above range");

    let result = gen_price_in_range(range(15.0, 15.0), money(20.0));
    assert!(result.is_some(), "Result should be Some when range is a single point");
    let price = result.unwrap();
    assert_eq!(
        price,
        money(15.0),
        "Price should be equal to range value when range is a single point"
    );

    let bounds = range(10.0, 20.0);
    let cash = money(10.0);
    for _ in 0..100 {
        let result = gen_price_in_range(bounds, cash);
        if let Some(price) = result {
            assert!(price >= cash, "Price should be >= cash when cash equals range min");
            assert!(price <= bounds.1, "Price should be <= range max");
        } else {
            assert!(false, "Result should be Some when cash equals range min");
        }
    }

    let bounds = range(10.0, 20.0);
    let cash = money(20.0);
    for _ in 0..100 {
        let result = gen_price_in_range(bounds, cash);
        assert!(result.is_some(), "Result should be Some when cash equals range max");
        let price = result.unwrap();
        assert!(price >= bounds.0, "Price should be >= range min");
        assert!(price <= cash, "Price should be <= cash when cash equals range max");
    }

    let result = gen_price_in_range(range(10.0, 20.0), money(0.0));
    assert!(result.is_none(), "Result should be None when cash is 0 and below range");

    let bounds = range(10.0, 10.01);
    let cash = money(15.0);
    for _ in 0..100 {
        let result = gen_price_in_range(bounds, cash);
        assert!(result.is_some(), "Result should be Some when range is very small");
        let price = result.unwrap();
        assert!(price >= bounds.0, "Price should be >= range min");
        assert!(price <= bounds.1, "Price should be <= range max");
        assert!(price >= money(0.01), "Price should be >= 0.01: {}", price);
    }

    let result = gen_price_in_range(range(0.0, 0.005), money(0.01));
    assert!(result.is_none(), "Result should be None when price < 0.01");

    let result = gen_price_in_range(range(0.01, 0.01), money(0.02));
    assert!(result.is_some(), "Result should be Some when price = 0.01");
    let price = result.unwrap();
    assert_eq!(price, money(0.01), "Price should be 0.01 when range is (0.01, 0.01)");

    let result = gen_price_in_range(range(0.01, 0.02), money(0.03));
    assert!(result.is_some(), "Result should be Some when price > 0.01");
    let price = result.unwrap();
    assert!(price >= money(0.01), "Price should be >= 0.01: {}", price);
    assert!(price <= money(0.02), "Price should be <= 0.02: {}", price);

    let result = gen_price_in_range(range(0.0, 0.005), money(0.002));
    assert!(result.is_none(), "Result should be None when cash < 0.01 and in range");

    let bounds = range(0.0, 0.02);
    let cash = money(0.01);
    let mut success_count = 0;
    let mut total_attempts = 0;
    for _ in 0..1000 {
        let result = gen_price_in_range(bounds, cash);
        total_attempts += 1;
        if let Some(price) = result {
            assert!(price >= money(0.01), "Price should be >= 0.01: {}", price);
            assert!(price <= money(0.02), "Price should be <= 0.02: {}", price);
            if price == cash {
                success_count += 1;
            }
        }
    }
    assert!(total_attempts > 0, "Should have made attempts");
    assert!(success_count > 0, "Should have cases where price is set to cash");

    for _ in 0..100 {
        let result = gen_price_in_range(range(10.0, 20.0), money(30.0));
        assert!(result.is_some(), "Result should be Some when cash is sufficient");
        assert_eq!(result.unwrap() % money(0.01), 0);
    }

    let result = gen_price_in_range(range(10.0, 10.0), money(20.0));
    assert!(result.is_some(), "Result should be Some when range is (10.0, 10.0)");
    let price = result.unwrap();
    assert_eq!(price, money(10.0), "Price should be 10.0 for range (10.0, 10.0)");

    let result = gen_price_in_range(range(10.014, 10.015), money(20.0));
    assert!(result.is_some(), "Result should be Some for range (10.014, 10.015)");
    let price = result.unwrap();
    assert!(
        price == money(10.01) || price == money(10.02),
        "Price should be either 10.01 or 10.02: {}",
        price
    );

    let result = gen_price_in_range(range(10.011, 10.012), money(20.0));
    assert!(result.is_some(), "Result should be Some for range (10.011, 10.012)");
    let price = result.unwrap();
    assert_eq!(
        price,
        money(10.01),
        "Price should be 10.01 for range (10.011, 10.012): {}",
        price
    );
}

#[test]
fn test_gen_new_range_with_price() {
    let old_range = range(10.0, 20.0);
    let price = money(15.0);
    let (new_min, new_max) = gen_new_range_with_price(price, old_range, rate(0.8));
    assert!(new_max > new_min, "New range should be valid");

    let shrink_rates = [0.5, 0.7, 0.9, 0.99];
    for &share in shrink_rates.iter() {
        let (new_min, new_max) = gen_new_range_with_price(price, old_range, rate(share));
        assert!(new_max > new_min, "New range should be valid for shrink_rate {}", share);
    }

    let old_range = range(10.0, 10.01);
    let price = money(10.005);
    let (new_min, new_max) = gen_new_range_with_price(price, old_range, rate(0.9));
    assert!(new_max > new_min, "New range should be valid for small old range");

    let old_range = range(5.0, 15.0);
    let price = money(10.0);
    let (new_min, new_max) = gen_new_range_with_price(price, old_range, rate(0.8));
    let center = (new_min + new_max) / 2;
    let center_offset = center.abs_diff(price);
    assert!(
        center_offset < money(0.01),
        "New range should be centered at price: center={}, price={}",
        center,
        price
    );
    let old_width = old_range.1 - old_range.0;
    let new_width = new_max - new_min;
    assert!(
        new_width < old_width,
        "New range should be smaller than old range: new_width={}, old_width={}",
        new_width,
        old_width
    );
    assert_eq!((new_min, new_max), range(6.0, 14.0));

    let old_range = range(0.0, 10.0);
    let price = money(0.0);
    let (new_min, new_max) = gen_new_range_with_price(price, old_range, rate(0.5));
    assert!(new_max > new_min, "New range should be valid for price at boundary");
    assert_eq!((new_min, new_max), range(0.0, 2.5));

    let (new_min, new_max) = gen_new_range_with_price(money(23.1), range(20.0, 30.0), rate(1.0));
    assert!(new_max > new_min, "New range should be valid for shrink_rate=1.0");
    let new_width = new_max - new_min;
    let old_width = old_range.1 - old_range.0;
    assert!(
        new_width.abs_diff(old_width) < money(0.02),
        "New width should be approximately equal to old width for shrink_rate=1.0: new_width={}, old_width={}",
        new_width,
        old_width
    );
    assert_eq!((new_min, new_max), range(18.1, 28.1));

    let (new_min, new_max) = gen_new_range_with_price(money(23.4), range(20.0, 30.0), rate(0.01));
    assert!(new_max > new_min, "New range should be valid for very small shrink_rate");
    let new_width = new_max - new_min;
    assert!(
        new_width * 100 < (old_range.1 - old_range.0) * 2,
        "New range should be very small for very small shrink_rate: width={}",
        new_width
    );
    assert_eq!((new_min, new_max), range(23.35, 23.45));
}

#[test]
fn rounding_to_the_cent_rounds_halves_up() {
    assert_eq!(round_to_nearest_cent(0), 0);
    assert_eq!(round_to_nearest_cent(4_999), 0);
    assert_eq!(round_to_nearest_cent(5_000), 10_000);
    assert_eq!(round_to_nearest_cent(14_999), 10_000);
    assert_eq!(round_to_nearest_cent(15_000), 20_000);
    assert_eq!(round_to_nearest_cent(money(10.014)), money(10.01));
    assert_eq!(round_to_nearest_cent(money(10.015)), money(10.02));
    assert_eq!(round_to_nearest_cent(u64::MAX), 18_446_744_073_709_550_000);
}

#[test]
fn shifting_a_range_moves_both_bounds_by_the_rate() {
    assert_eq!(shift_range_by_ratio(range(100.0, 200.0), 10_000), range(101.0, 202.0));
    assert_eq!(shift_range_by_ratio(range(100.0, 200.0), -10_000), range(99.0, 198.0));
    assert_eq!(shift_range_by_ratio(range(10.0, 90.0), -100_000), range(9.0, 81.0));
    assert_eq!(shift_range_by_ratio(range(10.0, 90.0), 100_000), range(11.0, 99.0));
    assert_eq!(shift_range_by_ratio(range(0.0, 0.0), 100_000), range(0.0, 0.01));
    assert_eq!(shift_range_by_ratio(range(5.0, 7.0), -1_000_000), range(0.0, 0.01));
    assert_eq!(shift_range_by_ratio(range(5.0, 7.0), -2_000_000), range(0.0, 0.01));
    assert_eq!(shift_range_by_ratio(range(1.234, 1.235), 0), range(1.23, 1.24));
    assert_eq!(
        shift_range_by_ratio((u64::MAX, u64::MAX), i64::MAX),
        (999_999_999_990_000, 1_000_000_000_000_000)
    );
}

#[test]
fn a_crossed_range_counts_as_empty_when_rebuilt() {
    assert_eq!(
        gen_new_range_with_price(money(5.0), range(9.0, 3.0), rate(1.0)),
        range(5.0, 5.01)
    );
}

#[test]
fn a_draw_becomes_a_price_the_buyer_can_pay() {
    let bounds = range(10.0, 20.0);
    assert_eq!(price_from_draw(money(12.344), bounds, money(30.0)), Some(money(12.34)));
    assert_eq!(price_from_draw(money(12.345), bounds, money(30.0)), Some(money(12.35)));
    assert_eq!(price_from_draw(money(18.0), bounds, money(15.0)), Some(money(15.0)));
    assert_eq!(price_from_draw(money(18.0), bounds, money(5.0)), None);
    assert_eq!(price_from_draw(money(18.0), bounds, money(20.0)), Some(money(18.0)));
    assert_eq!(price_from_draw(money(0.004), range(0.0, 0.005), money(0.01)), None);
    assert_eq!(price_from_draw(9_999, range(0.0, 1.0), money(1.0)), None);
    assert_eq!(price_from_draw(10_000, range(0.0, 1.0), money(1.0)), Some(10_000));
}

#[test]
fn a_drawn_range_gets_its_upper_bound_settled() {
    assert_eq!(finish_random_range(5, 5, 100), (5, 100));
    assert_eq!(finish_random_range(5, 5, 1_000_000), (5, 10_005));
    assert_eq!(finish_random_range(5, 9, 1_000_000), (5, 9));
    assert_eq!(finish_random_range(0, 10_000, 0), (0, 10_000));
    assert_eq!(finish_random_range(7, 3, 0), (7, 10_007));
}

#[test]
fn random_ranges_follow_the_wished_bounds() {
    assert_eq!(generate_random_range(-5, -1), (0, 10_000));
    assert_eq!(generate_random_range(0, 0), (0, 10_000));
    assert_eq!(generate_random_range(50, 50), (0, 50));
    assert_eq!(generate_random_range(signed(50.0), signed(50.0)), (0, money(50.0)));
    assert_eq!(generate_random_range(signed(50.0), signed(50.005)), range(50.0, 50.005));
    for _ in 0..200 {
        let (min, max) = generate_random_range(signed(40.0), signed(100.0));
        assert!(min >= money(40.0) && min < money(50.0));
        assert!(min < max && max <= money(100.0));
        let (min, _) = generate_random_range(signed(60.0), signed(100.0));
        assert_eq!(min, money(60.0));
    }
}

#[test]
fn the_move_of_a_range_is_measured_against_its_old_width() {
    let change = get_range_change_info(range(100.0, 200.0), range(101.0, 202.0));
    assert_eq!(change.lower_change, 1_000_000);
    assert_eq!(change.upper_change, 2_000_000);
    assert_eq!(change.total_change, 3_000_000);
    assert_eq!(change.lower_change_ratio, 10_000);
    assert_eq!(change.upper_change_ratio, 20_000);

    let change = get_range_change_info(range(100.0, 200.0), range(99.0, 198.0));
    assert_eq!(change.lower_change, -1_000_000);
    assert_eq!(change.upper_change, -2_000_000);
    assert_eq!(change.total_change, -3_000_000);
    assert_eq!(change.lower_change_ratio, -10_000);
    assert_eq!(change.upper_change_ratio, -20_000);

    let change = get_range_change_info(range(5.0, 5.0), range(6.0, 7.0));
    assert_eq!(change.lower_change_ratio, 0);
    assert_eq!(change.upper_change_ratio, 0);
    assert_eq!(change.total_change, 3_000_000);

    let change = get_range_change_info((0, 3), (1, 1));
    assert_eq!(change.lower_change_ratio, 333_333);
    assert_eq!(change.upper_change_ratio, -666_666);
}
