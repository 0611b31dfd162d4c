use austrian_market::model::factory::accountant::Accountant;
use austrian_market::model::factory::financial_bill::FinancialBill;

fn money(units: f64) -> u64 {
    (units * 1_000_000.0).round() as u64
}

#[test]
fn test_accountant_new() {
    let accountant = Accountant::new(money(0.1));
    assert_eq!(accountant.bills_len(), 1);
    assert_eq!(accountant.moments_len(), 1);
    let bill = accountant.get_bill(0).unwrap();
    assert_eq!(bill.cash, money(0.1));
}

#[test]
fn test_accountant_add_bill() {
    let mut accountant = Accountant::new(money(0.1));
    let bill = FinancialBill {
        cash: money(100.0),
        units_sold: 50,
        revenue: 0,
        total_stock: 100,
        total_production: 100,
        initial_stock: 100,
        rot_stock: 50,
        remaining_stock: 50,
        production_cost: 0,
        profit: 0,
    };
    accountant.add_bill(1, bill);
    assert_eq!(accountant.bills_len(), 2);
    assert_eq!(accountant.moments_len(), 2);
    let bill = accountant.get_bill(1).unwrap();
    assert_eq!(bill.cash, money(100.0));
    assert_eq!(bill.units_sold, 50);
    assert_eq!(bill.total_stock, 100);
    assert_eq!(bill.total_production, 100);
    assert_eq!(bill.initial_stock, 100);
    assert_eq!(bill.rot_stock, 50);
    assert_eq!(bill.remaining_stock, 50);
}

#[test]
fn test_accountant_add_bill_overflow() {
    let mut accountant = Accountant::new(money(0.1));
    for i in 0..21 {
        let bill = FinancialBill {
            cash: money(i as f64),
            units_sold: i as u16,
            revenue: 0,
            total_stock: i as u16,
            total_production: i as u16,
            initial_stock: i as u16,
            rot_stock: i as u16,
            remaining_stock: i as u16,
            production_cost: 0,
            profit: 0,
        };
        accountant.add_bill(i, bill);
    }
    assert_eq!(accountant.bills_len(), 20);
    assert_eq!(accountant.moments_len(), 20);
}

#[test]
fn test_accountant_get_bill_or_default() {
    let mut accountant = Accountant::new(money(0.1));
    let bill = accountant.get_bill_or_default(1);
    assert_eq!(bill.cash, 0);
}

#[test]
fn asking_for_bills_never_keeps_more_than_twenty() {
    let mut accountant = Accountant::new(5);
    for round in 1..200u64 {
        let bill = accountant.get_bill_or_default(round);
        assert_eq!(bill.cash, 0);
        assert!(accountant.bills_len() <= 20);
        assert!(accountant.moments_len() <= 20);
    }
    assert_eq!(accountant.bills_len(), 20);
    assert!(accountant.get_bill(0).is_none());
    assert!(accountant.get_bill(179).is_none());
    assert!(accountant.get_bill(180).is_some());
    assert!(accountant.get_bill(199).is_some());
}

#[test]
fn asking_twice_gives_the_stored_bill() {
    let mut accountant = Accountant::new(5);
    let mut bill = accountant.get_bill_or_default(3);
    bill.set_units_sold(9);
    accountant.store_bill(3, bill);
    assert_eq!(accountant.get_bill_or_default(3).units_sold, 9);
    assert_eq!(accountant.bills_len(), 2);
    assert_eq!(accountant.moments_len(), 2);
}

#[test]
fn a_round_entered_again_keeps_its_place_in_the_books() {
    let mut accountant = Accountant::new(5);
    accountant.add_bill(0, FinancialBill::new(6));
    assert_eq!(accountant.bills_len(), 1);
    assert_eq!(accountant.moments_len(), 1);
    assert_eq!(accountant.get_bill(0).unwrap().cash, 6);
    for round in 1..20 {
        accountant.add_bill(round, FinancialBill::new(round));
        accountant.add_bill(0, FinancialBill::new(100 + round));
        assert_eq!(accountant.bills_len(), round as usize + 1);
        assert_eq!(accountant.moments_len(), round as usize + 1);
    }
    assert_eq!(accountant.get_bill(0).unwrap().cash, 119);
    accountant.add_bill(20, FinancialBill::new(20));
    assert!(accountant.get_bill(0).is_none());
    assert_eq!(accountant.bills_len(), 20);
    assert_eq!(accountant.moments_len(), 20);
}
