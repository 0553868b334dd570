use near_fpo::oracle::FPOContract;

fn root() -> String {
    "root.near".to_string()
}

fn root_pk() -> Vec<u8> {
    vec![9u8; 32]
}

#[test]
fn main_simulate_create_pair() {
    let mut fpo = FPOContract::new(root());

    // create a price pair, check if it exists, and get the value
    fpo.create_pair(&root(), "ETH/USD".to_string(), 8, 2000, vec![root_pk()], 0)
        .unwrap();

    assert!(fpo.pair_exists("ETH/USD".to_string()));
    let price_entry = fpo.get_entry("ETH/USD".to_string()).unwrap();
    assert_eq!(2000, price_entry.price);
    assert_eq!(1, price_entry.latest_round_id);
}

#[test]
fn simulate_create_same_pair() {
    let mut fpo = FPOContract::new(root());

    // create a price pair
    fpo.create_pair(&root(), "ETH/USD".to_string(), 8, 2000, vec![root_pk()], 0)
        .unwrap();

    let tx = fpo.create_pair(&root(), "ETH/USD".to_string(), 8, 2000, vec![root_pk()], 0);
    assert!(tx.is_err())
}

#[test]
fn simulate_push_data() {
    let mut fpo = FPOContract::new(root());
    fpo.create_pair(&root(), "ETH/USD".to_string(), 8, 2000, vec![root_pk()], 0)
        .unwrap();
    fpo.set_min_signers(&root(), 0, "ETH/USD".to_string()).unwrap();
    assert!(fpo.pair_exists("ETH/USD".to_string()));
    assert_eq!(2000, fpo.get_entry("ETH/USD".to_string()).unwrap().price);

    fpo.push_data(&root_pk(), "ETH/USD".to_string(), 4000, 1, 5).unwrap();
    assert_eq!(4000, fpo.get_entry("ETH/USD".to_string()).unwrap().price);
}

#[test]
fn simulate_different_providers() {
    let mut fpo = FPOContract::new(root());
    fpo.create_pair(&root(), "ETH/USD:root.near".to_string(), 8, 2000, vec![root_pk()], 0)
        .unwrap();
    assert!(fpo.pair_exists("ETH/USD:root.near".to_string()));

    fpo.create_pair(&root(), "ETH/USD:bob.near".to_string(), 8, 4000, vec![root_pk()], 0)
        .unwrap();
    assert!(fpo.pair_exists("ETH/USD:bob.near".to_string()));

    assert_eq!(
        4000,
        fpo.get_entry("ETH/USD:bob.near".to_string()).unwrap().price
    );
    assert_eq!(
        2000,
        fpo.get_entry("ETH/USD:root.near".to_string()).unwrap().price
    );
}

#[test]
fn simulate_agg_avg() {
    let mut fpo = FPOContract::new(root());
    fpo.create_pair(&root(), "ETH/USD:root.near".to_string(), 8, 2000, vec![root_pk()], 0)
        .unwrap();
    fpo.create_pair(&root(), "ETH/USD:bob.near".to_string(), 8, 4000, vec![root_pk()], 0)
        .unwrap();
    let pairs = vec!["ETH/USD".to_string(), "ETH/USD".to_string()];
    let providers = vec!["root.near".to_string(), "bob.near".to_string()];
    assert_eq!(Ok(3000), fpo.aggregate_avg(&pairs, &providers, 0));
}

#[test]
fn simulate_agg_median() {
    let mut fpo = FPOContract::new(root());
    fpo.create_pair(&root(), "ETH/USD:root.near".to_string(), 8, 2000, vec![root_pk()], 0)
        .unwrap();
    fpo.create_pair(&root(), "ETH/USD:bob.near".to_string(), 8, 4000, vec![root_pk()], 0)
        .unwrap();
    let pairs = vec!["ETH/USD".to_string(), "ETH/USD".to_string()];
    let providers = vec!["root.near".to_string(), "bob.near".to_string()];
    assert_eq!(Ok(3000), fpo.aggregate_median(&pairs, &providers, 0));
}
