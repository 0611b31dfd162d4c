use austrian_market::entity::normal_distribute::NormalDistribution;

fn money(units: f64) -> u64 {
    (units * 1_000_000.0).round() as u64
}

#[test]
fn normal_distribute_test_new() {
    let mean = money(10.0);
    let id = 1;
    let name = "test_distribution".to_string();
    let std_dev = money(2.0);

    let dist = NormalDistribution::new(mean, id, name.clone(), std_dev);

    assert_eq!(dist.mean(), mean);
    assert_eq!(dist.id(), id);
    assert_eq!(dist.name(), name);
    assert_eq!(dist.std_dev(), std_dev);
}

#[test]
fn test_random_default_range() {
    let id = 2;
    let name = "random_distribution".to_string();

    let dist = NormalDistribution::random(id, name.clone(), None, None);

    assert_eq!(dist.id(), id);
    assert_eq!(dist.name(), name);
    assert!(dist.mean() < u64::MAX);
    assert!(dist.std_dev() >= money(0.1) && dist.std_dev() < money(10.0));
}

#[test]
fn test_random_custom_range() {
    let id = 3;
    let name = "custom_range_distribution".to_string();
    let lower = money(10.0);
    let upper = money(20.0);

    let dist = NormalDistribution::random(id, name.clone(), Some(lower), Some(upper));

    assert_eq!(dist.id(), id);
    assert_eq!(dist.name(), name);
    assert!(dist.mean() >= lower && dist.mean() < upper);
    assert!(dist.std_dev() >= money(0.1) && dist.std_dev() < upper.min(money(10.0)));
}

#[test]
fn random_keeps_a_narrow_deviation_range() {
    for _ in 0..200 {
        let dist = NormalDistribution::random(4, "narrow".to_string(), Some(0), Some(money(1.0)));
        assert!(dist.mean() < money(1.0));
        assert!(dist.std_dev() >= money(0.1) && dist.std_dev() < money(1.0));
    }
}
