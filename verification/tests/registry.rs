use near_fpo::errors::OracleError;
use near_fpo::oracle::FPOContract;

fn alice() -> String {
    "alice.near".to_string()
}

fn bob() -> String {
    "bob.near".to_string()
}

fn k(seed: u8) -> Vec<u8> {
    vec![seed; 32]
}

#[test]
fn create_registry() {
    // create fpo contract
    let mut fpo_contract = FPOContract::new(alice());

    // alice creates feeds for ETH/USD, BTC/USD and NEAR/USD
    fpo_contract
        .create_pair(&alice(), "ETH/USD".to_string(), 8, 2500, vec![k(1), k(2)], 0)
        .unwrap();
    fpo_contract
        .create_pair(&alice(), "BTC/USD".to_string(), 8, 40000, vec![k(1), k(2)], 0)
        .unwrap();
    fpo_contract
        .create_pair(&alice(), "NEAR/USD".to_string(), 8, 10, vec![k(1), k(2)], 0)
        .unwrap();

    // bob creates a registry using alice's feeds
    fpo_contract.create_registry(
        &bob(),
        vec!["ETH/USD".to_string(), "BTC/USD".to_string()],
        0, // min_last_update
    );

    assert_eq!(
        Ok(vec![Some(2500), Some(40000)]),
        fpo_contract.registry_aggregate_median(bob())
    );

    // bob reorders elements in his registry and adds NEAR/USD
    fpo_contract.create_registry(
        &bob(),
        vec![
            "ETH/USD".to_string(),
            "BTC/USD".to_string(),
            "NEAR/USD".to_string(),
        ],
        0, // min_last_update
    );

    assert_eq!(
        Ok(vec![Some(2500), Some(40000), Some(10)]),
        fpo_contract.registry_aggregate_median(bob())
    );
}

#[test]
fn registry_missing_owner() {
    let fpo_contract = FPOContract::new(alice());
    assert_eq!(
        Err(OracleError::NotFound),
        fpo_contract.registry_aggregate_median(bob())
    );
}

#[test]
fn registry_freshness_floor() {
    let mut fpo_contract = FPOContract::new(alice());
    fpo_contract
        .create_pair(&alice(), "ETH/USD".to_string(), 8, 2500, vec![k(1)], 10)
        .unwrap();
    fpo_contract
        .create_pair(&alice(), "BTC/USD".to_string(), 8, 40000, vec![k(1)], 30)
        .unwrap();
    fpo_contract.create_registry(
        &bob(),
        vec![
            "ETH/USD".to_string(),
            "BTC/USD".to_string(),
            "DOGE/USD".to_string(),
        ],
        15,
    );
    // ETH/USD is older than the floor, DOGE/USD does not exist: both None,
    // positions and length preserved.
    assert_eq!(
        Ok(vec![None, Some(40000), None]),
        fpo_contract.registry_aggregate_median(bob())
    );
}

#[test]
fn registry_overwrite_is_wholesale() {
    let mut fpo_contract = FPOContract::new(alice());
    fpo_contract
        .create_pair(&alice(), "ETH/USD".to_string(), 8, 2500, vec![k(1)], 0)
        .unwrap();
    fpo_contract.create_registry(
        &bob(),
        vec!["ETH/USD".to_string(), "ETH/USD".to_string()],
        0,
    );
    fpo_contract.create_registry(&bob(), vec!["ETH/USD".to_string()], 0);
    assert_eq!(
        Ok(vec![Some(2500)]),
        fpo_contract.registry_aggregate_median(bob())
    );
}
