use near_fpo::errors::OracleError;
use near_fpo::oracle::FPOContract;

fn alice() -> String {
    "alice.near".to_string()
}

fn somekey(seed: u8) -> Vec<u8> {
    vec![seed; 32]
}

fn setup_provider_feed(fpo: &mut FPOContract, name: &str, price: u128, now: u64) {
    fpo.create_pair(&alice(), name.to_string(), 8, price, vec![somekey(1)], now)
        .unwrap();
}

#[test]
fn aggregate_aggregate_avg() {
    let mut fpo_contract = FPOContract::new(alice());
    setup_provider_feed(&mut fpo_contract, "ETH/USD:alice.near", 2000, 0);
    setup_provider_feed(&mut fpo_contract, "ETH/USD:bob.near", 4000, 0);
    setup_provider_feed(&mut fpo_contract, "ETH/USD:carol.near", 4000, 0);

    assert_eq!(
        2000,
        fpo_contract
            .get_entry("ETH/USD:alice.near".to_string())
            .unwrap()
            .price
    );
    assert_eq!(
        4000,
        fpo_contract
            .get_entry("ETH/USD:bob.near".to_string())
            .unwrap()
            .price
    );
    assert_eq!(
        4000,
        fpo_contract
            .get_entry("ETH/USD:carol.near".to_string())
            .unwrap()
            .price
    );

    let pairs = vec![
        "ETH/USD".to_string(),
        "ETH/USD".to_string(),
        "ETH/USD".to_string(),
    ];
    let providers = vec![
        "alice.near".to_string(),
        "bob.near".to_string(),
        "carol.near".to_string(),
    ];
    assert_eq!(
        Ok(3333),
        fpo_contract.aggregate_avg(&pairs, &providers, 0)
    );
}

#[test]
fn aggregate_aggregate_median() {
    let mut fpo_contract = FPOContract::new(alice());
    setup_provider_feed(&mut fpo_contract, "ETH/USD:alice.near", 2000, 0);
    setup_provider_feed(&mut fpo_contract, "ETH/USD:bob.near", 2000, 0);
    setup_provider_feed(&mut fpo_contract, "ETH/USD:carol.near", 4000, 0);

    let pairs = vec![
        "ETH/USD".to_string(),
        "ETH/USD".to_string(),
        "ETH/USD".to_string(),
    ];
    let providers = vec![
        "alice.near".to_string(),
        "bob.near".to_string(),
        "carol.near".to_string(),
    ];
    assert_eq!(
        Ok(2000),
        fpo_contract.aggregate_median(&pairs, &providers, 0)
    );
}

#[test]
fn aggregate_median_many() {
    let mut fpo_contract = FPOContract::new(alice());
    setup_provider_feed(&mut fpo_contract, "ETH/USD:alice.near", 2000, 0);
    setup_provider_feed(&mut fpo_contract, "BTC/USD:alice.near", 30000, 0);
    setup_provider_feed(&mut fpo_contract, "ETH/USD:bob.near", 2000, 0);
    setup_provider_feed(&mut fpo_contract, "BTC/USD:bob.near", 30000, 0);
    setup_provider_feed(&mut fpo_contract, "ETH/USD:carol.near", 4000, 0);
    setup_provider_feed(&mut fpo_contract, "BTC/USD:carol.near", 40000, 0);

    let pairs_eth = vec![
        "ETH/USD".to_string(),
        "ETH/USD".to_string(),
        "ETH/USD".to_string(),
    ];
    let pairs_btc = vec![
        "BTC/USD".to_string(),
        "BTC/USD".to_string(),
        "BTC/USD".to_string(),
    ];
    let providers = vec![
        "alice.near".to_string(),
        "bob.near".to_string(),
        "carol.near".to_string(),
    ];
    assert_eq!(
        Ok(vec![Some(2000), Some(30000)]),
        fpo_contract.aggregate_median_many(
            &vec![pairs_eth, pairs_btc],
            &vec![providers.clone(), providers],
            0
        )
    );
}

#[test]
fn lib_aggregate_avg() {
    let mut fpo_contract = FPOContract::new(alice());
    setup_provider_feed(&mut fpo_contract, "ETH/USD:alice.near", 2000, 0);
    setup_provider_feed(&mut fpo_contract, "ETH/USD:bob.near", 4000, 0);
    setup_provider_feed(&mut fpo_contract, "ETH/USD:carol.near", 4000, 0);
    setup_provider_feed(&mut fpo_contract, "ETH/USD:dina.near", 4000, 0);

    let pairs = vec![
        "ETH/USD".to_string(),
        "ETH/USD".to_string(),
        "ETH/USD".to_string(),
        "ETH/USD".to_string(),
    ];
    let providers = vec![
        "alice.near".to_string(),
        "bob.near".to_string(),
        "carol.near".to_string(),
        "dina.near".to_string(),
    ];
    assert_eq!(
        Ok(3500),
        fpo_contract.aggregate_avg(&pairs, &providers, 0)
    );
}

#[test]
fn lib_aggregate_median() {
    let mut fpo_contract = FPOContract::new(alice());
    setup_provider_feed(&mut fpo_contract, "ETH/USD:alice.near", 2000, 0);
    setup_provider_feed(&mut fpo_contract, "ETH/USD:bob.near", 2000, 0);
    setup_provider_feed(&mut fpo_contract, "ETH/USD:carol.near", 4000, 0);
    setup_provider_feed(&mut fpo_contract, "ETH/USD:dina.near", 4000, 0);

    let pairs = vec![
        "ETH/USD".to_string(),
        "ETH/USD".to_string(),
        "ETH/USD".to_string(),
        "ETH/USD".to_string(),
    ];
    let providers = vec![
        "alice.near".to_string(),
        "bob.near".to_string(),
        "carol.near".to_string(),
        "dina.near".to_string(),
    ];
    assert_eq!(
        Ok(3000),
        fpo_contract.aggregate_median(&pairs, &providers, 0)
    );
}

#[test]
fn aggregate_freshness_exclusion() {
    // Entries updated at 10, 20 and 30; a floor of 15 keeps only the
    // last two in the mean and the median, and blanks the first position
    // of the collection while keeping its length.
    let mut fpo_contract = FPOContract::new(alice());
    setup_provider_feed(&mut fpo_contract, "ETH/USD:alice.near", 1000, 10);
    setup_provider_feed(&mut fpo_contract, "ETH/USD:bob.near", 2000, 20);
    setup_provider_feed(&mut fpo_contract, "ETH/USD:carol.near", 6000, 30);

    let pairs = vec![
        "ETH/USD".to_string(),
        "ETH/USD".to_string(),
        "ETH/USD".to_string(),
    ];
    let providers = vec![
        "alice.near".to_string(),
        "bob.near".to_string(),
        "carol.near".to_string(),
    ];
    assert_eq!(Ok(4000), fpo_contract.aggregate_avg(&pairs, &providers, 15));
    assert_eq!(Ok(4000), fpo_contract.aggregate_median(&pairs, &providers, 15));
    assert_eq!(
        Ok(vec![None, Some(2000), Some(6000)]),
        fpo_contract.aggregate_collect(&pairs, &providers, 15)
    );
}

#[test]
fn aggregate_all_stale() {
    let mut fpo_contract = FPOContract::new(alice());
    setup_provider_feed(&mut fpo_contract, "ETH/USD:alice.near", 1000, 10);

    let pairs = vec!["ETH/USD".to_string()];
    let providers = vec!["alice.near".to_string()];
    assert_eq!(
        Err(OracleError::InsufficientFreshData),
        fpo_contract.aggregate_avg(&pairs, &providers, 100)
    );
    assert_eq!(
        Err(OracleError::InsufficientFreshData),
        fpo_contract.aggregate_median(&pairs, &providers, 100)
    );
    assert_eq!(
        Ok(vec![None]),
        fpo_contract.aggregate_collect(&pairs, &providers, 100)
    );
}

#[test]
fn aggregate_length_mismatch() {
    let fpo_contract = FPOContract::new(alice());
    let pairs = vec!["ETH/USD".to_string()];
    let providers: Vec<String> = vec![];
    assert_eq!(
        Err(OracleError::LengthMismatch),
        fpo_contract.aggregate_avg(&pairs, &providers, 0)
    );
    assert_eq!(
        Err(OracleError::LengthMismatch),
        fpo_contract.aggregate_median(&pairs, &providers, 0)
    );
    assert_eq!(
        Err(OracleError::LengthMismatch),
        fpo_contract.aggregate_collect(&pairs, &providers, 0)
    );
}

#[test]
fn aggregate_missing_provider() {
    let mut fpo_contract = FPOContract::new(alice());
    setup_provider_feed(&mut fpo_contract, "ETH/USD:alice.near", 1000, 0);

    let pairs = vec!["ETH/USD".to_string(), "ETH/USD".to_string()];
    let providers = vec!["alice.near".to_string(), "nobody.near".to_string()];
    assert_eq!(
        Err(OracleError::NotFound),
        fpo_contract.aggregate_avg(&pairs, &providers, 0)
    );
    assert_eq!(
        Err(OracleError::NotFound),
        fpo_contract.aggregate_collect(&pairs, &providers, 0)
    );
}

#[test]
fn aggregate_avg_many_mixed_groups() {
    let mut fpo_contract = FPOContract::new(alice());
    setup_provider_feed(&mut fpo_contract, "ETH/USD:alice.near", 2000, 50);
    setup_provider_feed(&mut fpo_contract, "BTC/USD:alice.near", 30000, 10);

    let groups = vec![
        vec!["ETH/USD".to_string()],
        vec!["BTC/USD".to_string()],
    ];
    let providers = vec![
        vec!["alice.near".to_string()],
        vec!["alice.near".to_string()],
    ];
    // The second group's only entry is stale: its slot is None, the call succeeds.
    assert_eq!(
        Ok(vec![Some(2000), None]),
        fpo_contract.aggregate_avg_many(&groups, &providers, 20)
    );
}

#[test]
fn mean_and_median_exact_values() {
    let values = vec![1000u128, 2000u128, 3000u128];
    assert_eq!(2000, near_fpo::math::mean(&values));
    assert_eq!(2000, near_fpo::math::median(&values));

    let even = vec![1000u128, 2000u128];
    assert_eq!(1500, near_fpo::math::mean(&even));
    assert_eq!(1500, near_fpo::math::median(&even));

    let unsorted = vec![7u128, 1u128, 5u128, 3u128];
    // Ascending rearrangement 1,3,5,7: the median is the mean of 3 and 5.
    assert_eq!(4, near_fpo::math::median(&unsorted));
    assert_eq!(4, near_fpo::math::mean(&unsorted));
    // The argument is left unchanged.
    assert_eq!(vec![7u128, 1u128, 5u128, 3u128], unsorted);
}
