use near_fpo::errors::OracleError;
use near_fpo::oracle::FPOContract;

fn alice() -> String {
    "alice.near".to_string()
}

fn bob() -> String {
    "bob.near".to_string()
}

fn alicepk() -> Vec<u8> {
    vec![1u8; 32]
}

fn bobpk() -> Vec<u8> {
    vec![2u8; 32]
}

#[test]
fn price_pair_create_pair() {
    let mut fpo_contract = FPOContract::new(alice());
    fpo_contract
        .create_pair(&alice(), "ETH/USD".to_string(), 8, 2500, vec![alicepk()], 0)
        .unwrap();
    assert_eq!(true, fpo_contract.pair_exists("ETH/USD".to_string()));
}

#[test]
fn price_pair_create_diff_pairs() {
    let mut fpo_contract = FPOContract::new(alice());
    fpo_contract
        .create_pair(&alice(), "ETH/USD".to_string(), 8, 2500, vec![alicepk()], 0)
        .unwrap();
    assert_eq!(true, fpo_contract.pair_exists("ETH/USD".to_string()));

    fpo_contract
        .create_pair(&alice(), "BTC/USD".to_string(), 8, 42000, vec![alicepk()], 0)
        .unwrap();
    assert_eq!(true, fpo_contract.pair_exists("BTC/USD".to_string()));

    assert_eq!(
        vec![2500u128, 42000u128],
        fpo_contract
            .get_prices(&vec!["ETH/USD".to_string(), "BTC/USD".to_string()])
            .into_iter()
            .map(|entry| entry.unwrap())
            .collect::<Vec<u128>>()
    );
}

#[test]
fn price_pair_create_same_pair() {
    let mut fpo_contract = FPOContract::new(alice());
    fpo_contract
        .create_pair(&alice(), "ETH/USD".to_string(), 8, 2500, vec![alicepk()], 0)
        .unwrap();
    assert_eq!(true, fpo_contract.pair_exists("ETH/USD".to_string()));

    let second = fpo_contract.create_pair(&alice(), "ETH/USD".to_string(), 8, 2500, vec![alicepk()], 0);
    assert_eq!(second, Err(OracleError::AlreadyExists));
}

#[test]
fn price_pair_push_data() {
    let mut fpo_contract = FPOContract::new(alice());
    fpo_contract
        .create_pair(&alice(), "ETH/USD".to_string(), 8, 2500, vec![alicepk()], 0)
        .unwrap();
    fpo_contract
        .set_min_signers(&alice(), 0, "ETH/USD".to_string())
        .unwrap();
    assert_eq!(
        2500,
        fpo_contract.get_entry("ETH/USD".to_string()).unwrap().price
    );

    fpo_contract
        .push_data(&alicepk(), "ETH/USD".to_string(), 3000, 1, 10)
        .unwrap();

    assert_eq!(
        3000,
        fpo_contract.get_entry("ETH/USD".to_string()).unwrap().price
    );
}

#[test]
fn push_data_multiple_providers() {
    // Two providers each publish their own provider-qualified feed.
    let mut fpo_contract = FPOContract::new(alice());
    fpo_contract
        .create_pair(&alice(), "ETH/USD:alice.near".to_string(), 8, 2500, vec![alicepk()], 0)
        .unwrap();
    fpo_contract
        .set_min_signers(&alice(), 0, "ETH/USD:alice.near".to_string())
        .unwrap();
    assert_eq!(
        2500,
        fpo_contract
            .get_entry("ETH/USD:alice.near".to_string())
            .unwrap()
            .price
    );

    fpo_contract
        .create_pair(&alice(), "ETH/USD:bob.near".to_string(), 8, 2700, vec![bobpk()], 0)
        .unwrap();
    fpo_contract
        .set_min_signers(&alice(), 0, "ETH/USD:bob.near".to_string())
        .unwrap();
    assert_eq!(
        2700,
        fpo_contract
            .get_entry("ETH/USD:bob.near".to_string())
            .unwrap()
            .price
    );
    assert_eq!(
        2500,
        fpo_contract
            .get_entry("ETH/USD:alice.near".to_string())
            .unwrap()
            .price
    );

    fpo_contract
        .push_data(&alicepk(), "ETH/USD:alice.near".to_string(), 3000, 1, 5)
        .unwrap();

    assert_eq!(
        3000,
        fpo_contract
            .get_entry("ETH/USD:alice.near".to_string())
            .unwrap()
            .price
    );
}

#[test]
fn lib_create_pair() {
    let mut fpo_contract = FPOContract::new(alice());
    fpo_contract
        .create_pair(&alice(), "ETH/USD".to_string(), 8, 2500, vec![alicepk()], 0)
        .unwrap();
    assert_eq!(true, fpo_contract.pair_exists("ETH/USD".to_string()));
}

#[test]
fn lib_create_diff_pairs() {
    let mut fpo_contract = FPOContract::new(alice());
    fpo_contract
        .create_pair(&alice(), "ETH/USD".to_string(), 8, 2500, vec![alicepk()], 0)
        .unwrap();
    assert_eq!(true, fpo_contract.pair_exists("ETH/USD".to_string()));

    fpo_contract
        .create_pair(&alice(), "BTC/USD".to_string(), 8, 42000, vec![alicepk()], 0)
        .unwrap();
    assert_eq!(true, fpo_contract.pair_exists("BTC/USD".to_string()));
}

#[test]
fn lib_create_same_pair() {
    let mut fpo_contract = FPOContract::new(alice());
    fpo_contract
        .create_pair(&alice(), "ETH/USD".to_string(), 8, 2500, vec![alicepk()], 0)
        .unwrap();
    assert_eq!(true, fpo_contract.pair_exists("ETH/USD".to_string()));

    let second = fpo_contract.create_pair(&alice(), "ETH/USD".to_string(), 8, 2500, vec![alicepk()], 0);
    assert_eq!(second, Err(OracleError::AlreadyExists));
}

#[test]
fn lib_push_data() {
    let mut fpo_contract = FPOContract::new(alice());
    fpo_contract
        .create_pair(&alice(), "ETH/USD".to_string(), 8, 2500, vec![alicepk()], 0)
        .unwrap();
    fpo_contract
        .set_min_signers(&alice(), 0, "ETH/USD".to_string())
        .unwrap();
    assert_eq!(
        2500,
        fpo_contract.get_entry("ETH/USD".to_string()).unwrap().price
    );

    fpo_contract
        .push_data(&alicepk(), "ETH/USD".to_string(), 3000, 1, 10)
        .unwrap();

    assert_eq!(
        3000,
        fpo_contract.get_entry("ETH/USD".to_string()).unwrap().price
    );
}

#[test]
fn create_different_providers() {
    let mut fpo_contract = FPOContract::new(alice());
    fpo_contract
        .create_pair(&alice(), "ETH/USD:alice.near".to_string(), 8, 2500, vec![alicepk()], 0)
        .unwrap();
    fpo_contract
        .set_min_signers(&alice(), 0, "ETH/USD:alice.near".to_string())
        .unwrap();
    assert_eq!(
        2500,
        fpo_contract
            .get_entry("ETH/USD:alice.near".to_string())
            .unwrap()
            .price
    );

    fpo_contract
        .create_pair(&alice(), "ETH/USD:bob.near".to_string(), 8, 2700, vec![bobpk()], 0)
        .unwrap();
    assert_eq!(
        2700,
        fpo_contract
            .get_entry("ETH/USD:bob.near".to_string())
            .unwrap()
            .price
    );
    assert_eq!(
        2500,
        fpo_contract
            .get_entry("ETH/USD:alice.near".to_string())
            .unwrap()
            .price
    );

    fpo_contract
        .push_data(&alicepk(), "ETH/USD:alice.near".to_string(), 3000, 1, 9)
        .unwrap();

    assert_eq!(
        3000,
        fpo_contract
            .get_entry("ETH/USD:alice.near".to_string())
            .unwrap()
            .price
    );
}

#[test]
fn push_data_wrong_round_rejected() {
    let mut fpo_contract = FPOContract::new(alice());
    fpo_contract
        .create_pair(&alice(), "ETH/USD".to_string(), 8, 2500, vec![alicepk()], 0)
        .unwrap();
    fpo_contract
        .set_min_signers(&alice(), 0, "ETH/USD".to_string())
        .unwrap();
    let r = fpo_contract.push_data(&alicepk(), "ETH/USD".to_string(), 3000, 7, 10);
    assert_eq!(r, Err(OracleError::RoundMismatch));
    assert_eq!(
        2500,
        fpo_contract.get_entry("ETH/USD".to_string()).unwrap().price
    );
}

#[test]
fn push_data_unknown_signer_rejected() {
    let mut fpo_contract = FPOContract::new(alice());
    fpo_contract
        .create_pair(&alice(), "ETH/USD".to_string(), 8, 2500, vec![alicepk()], 0)
        .unwrap();
    fpo_contract
        .set_min_signers(&alice(), 0, "ETH/USD".to_string())
        .unwrap();
    let r = fpo_contract.push_data(&bobpk(), "ETH/USD".to_string(), 3000, 1, 10);
    assert_eq!(r, Err(OracleError::UnauthorizedSigner));
}

#[test]
fn push_data_needs_no_signature_requirement() {
    let mut fpo_contract = FPOContract::new(alice());
    fpo_contract
        .create_pair(&alice(), "ETH/USD".to_string(), 8, 2500, vec![alicepk()], 0)
        .unwrap();
    // The default minimum signer count is 2, so the single-signer path is closed.
    let r = fpo_contract.push_data(&alicepk(), "ETH/USD".to_string(), 3000, 1, 10);
    assert_eq!(r, Err(OracleError::InsufficientSigners));
}

#[test]
fn get_entry_missing_pair() {
    let fpo_contract = FPOContract::new(alice());
    assert!(fpo_contract.get_entry("ETH/USD".to_string()).is_none());
    assert!(fpo_contract.get_price("ETH/USD".to_string()).is_none());
    assert_eq!(false, fpo_contract.pair_exists("ETH/USD".to_string()));
}

#[test]
fn create_pair_requires_admin() {
    let mut fpo_contract = FPOContract::new(alice());
    let r = fpo_contract.create_pair(&bob(), "ETH/USD".to_string(), 8, 2500, vec![alicepk()], 0);
    assert_eq!(r, Err(OracleError::Unauthorized));
    assert_eq!(false, fpo_contract.pair_exists("ETH/USD".to_string()));
}
