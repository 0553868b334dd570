use near_fpo::callbacks::PriceType;
use near_fpo::consumer::Consumer;
use near_fpo::oracle::FPOContract;

fn root() -> String {
    "root.near".to_string()
}

fn oracle_account() -> String {
    "fpo.near".to_string()
}

fn user() -> String {
    "user.near".to_string()
}

fn k(seed: u8) -> Vec<u8> {
    vec![seed; 32]
}

#[test]
fn simulate_registry_agg_call() {
    let mut fpo = FPOContract::new(root());
    let mut consumer = Consumer::new(oracle_account());

    fpo.create_pair(&root(), "ETH/USD".to_string(), 8, 2000, vec![k(1), k(2), k(3)], 0)
        .unwrap();
    fpo.create_pair(&root(), "BTC/USD".to_string(), 8, 45000, vec![k(1), k(2), k(3)], 0)
        .unwrap();

    // create registry for user
    fpo.create_registry(
        &user(),
        vec!["ETH/USD".to_string(), "BTC/USD".to_string()],
        0,
    );

    let aggregated = fpo.registry_aggregate_median(user()).unwrap();
    assert_eq!(vec![Some(2000), Some(45000)], aggregated);

    // assemble the registry forward and hand it to the consumer, as the
    // host's delivery mechanism would
    let forward = fpo
        .registry_aggregate_call(user(), user(), "consumer.near".to_string())
        .unwrap();
    consumer.on_registry_prices_received(
        forward.sender_id,
        forward.pairs,
        forward.results,
        forward.registry_owner,
    );

    let res = consumer.get_registry(user()).unwrap();
    assert_eq!(
        vec!["ETH/USD".to_string(), "BTC/USD".to_string()],
        res.pairs
    );
    assert_eq!(vec![Some(2000), Some(45000)], res.results);
    assert_eq!(user(), res.sender_id);
}

#[test]
fn simulate_get_price_call() {
    let mut fpo = FPOContract::new(root());
    let mut consumer = Consumer::new(oracle_account());

    fpo.create_pair(&root(), "ETH/USD".to_string(), 8, 2000, vec![k(1)], 0)
        .unwrap();

    let forward = fpo.get_price_call(user(), "ETH/USD".to_string(), "consumer.near".to_string());
    assert_eq!(vec!["ETH/USD".to_string()], forward.pairs);
    assert_eq!(vec![Some(2000)], forward.results);

    consumer.on_price_received(
        forward.sender_id,
        forward.pairs,
        forward.price_type,
        forward.results,
    );

    let cached = consumer.get_pair("ETH/USD".to_string()).unwrap();
    assert_eq!(2000, cached.price);
    assert_eq!(user(), cached.sender);
    assert_eq!(PriceType::Single, cached.price_type);
}

#[test]
fn simulate_get_prices_call() {
    let mut fpo = FPOContract::new(root());
    let mut consumer = Consumer::new(oracle_account());

    fpo.create_pair(&root(), "ETH/USD".to_string(), 8, 2000, vec![k(1)], 0)
        .unwrap();
    fpo.create_pair(&root(), "BTC/USD".to_string(), 8, 45000, vec![k(1)], 0)
        .unwrap();

    let forward = fpo.get_prices_call(
        user(),
        vec![
            "ETH/USD".to_string(),
            "BTC/USD".to_string(),
            "DOGE/USD".to_string(),
        ],
        "consumer.near".to_string(),
    );
    assert_eq!(vec![Some(2000), Some(45000), None], forward.results);

    consumer.on_price_received(
        forward.sender_id,
        forward.pairs,
        forward.price_type,
        forward.results,
    );

    assert_eq!(2000, consumer.get_pair("ETH/USD".to_string()).unwrap().price);
    assert_eq!(
        45000,
        consumer.get_pair("BTC/USD".to_string()).unwrap().price
    );
    // a pair whose result was absent is not cached
    assert!(consumer.get_pair("DOGE/USD".to_string()).is_none());
}

#[test]
fn consumer_single_forward_repeats_its_result() {
    let mut consumer = Consumer::new(oracle_account());
    consumer.on_price_received(
        user(),
        vec!["ETH/USD".to_string(), "BTC/USD".to_string()],
        PriceType::Single,
        vec![Some(1234), None],
    );
    // a single forward carries one result, repeated for every named pair
    assert_eq!(1234, consumer.get_pair("ETH/USD".to_string()).unwrap().price);
    assert_eq!(1234, consumer.get_pair("BTC/USD".to_string()).unwrap().price);
}

#[test]
fn consumer_later_position_wins() {
    let mut consumer = Consumer::new(oracle_account());
    consumer.on_price_received(
        user(),
        vec!["ETH/USD".to_string(), "ETH/USD".to_string()],
        PriceType::Multiple,
        vec![Some(1111), Some(2222)],
    );
    assert_eq!(2222, consumer.get_pair("ETH/USD".to_string()).unwrap().price);
}

#[test]
fn consumer_registry_overwrites_wholesale() {
    let mut consumer = Consumer::new(oracle_account());
    consumer.on_registry_prices_received(
        user(),
        vec!["ETH/USD".to_string()],
        vec![Some(1)],
        user(),
    );
    consumer.on_registry_prices_received(
        user(),
        vec!["BTC/USD".to_string()],
        vec![Some(2)],
        user(),
    );
    let res = consumer.get_registry(user()).unwrap();
    assert_eq!(vec!["BTC/USD".to_string()], res.pairs);
    assert_eq!(vec![Some(2)], res.results);
    assert!(consumer.get_registry(root()).is_none());
}
