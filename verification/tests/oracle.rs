use price_oracle::contract::{
    handle, init, predict_prices, query, query_price, query_symbols, query_validators, register,
};
use price_oracle::msg::{Env, HandleMsg, InitMsg, Price, QueryAnswer, QueryMsg};
use price_oracle::state::{
    config_read, get_all_predictions, get_validator_from_key, store_prediction, store_symbol,
    symbol_exists, OracleStore, Prediction,
};
use price_oracle::ContractError;

/// A bech32 account address and its operator form, from a fixed payload.
fn addresses(payload: &[u8]) -> (String, String) {
    let groups: Vec<bech32_no_std::u5> = payload
        .iter()
        .map(|b| bech32_no_std::u5::try_from_u8(*b).unwrap())
        .collect();
    let account = bech32_no_std::encode("secret", groups.clone()).unwrap();
    let operator = bech32_no_std::encode("secretvaloper", groups).unwrap();
    (account, operator)
}

fn env(sender: &str, time: u64) -> Env {
    Env {
        sender: sender.to_string(),
        time,
    }
}

fn fresh_store(owner: &str) -> OracleStore {
    init(&env(owner, 0), InitMsg {})
}

fn price(symbol: &str, value: u128) -> Price {
    Price {
        symbol: symbol.to_string(),
        price: value,
    }
}

fn submit(store: &mut OracleStore, key: &str, time: u64, prices: Vec<Price>) {
    predict_prices(store, &env("anyone", time), prices, key.to_string()).unwrap();
}

#[test]
fn register_appends_binding() {
    let (account, operator) = addresses(&[1, 2, 3, 4, 5, 6]);
    let mut store = fresh_store("owner");
    let active = vec![operator.clone()];
    let r = register(&mut store, &env(&account, 1), Some("key-1".to_string()), &active);
    assert_eq!(r, Ok(()));
    let validators = query_validators(&store).validators;
    assert_eq!(validators, vec![operator.clone()]);
    // The stored address is the re-encoded operator form, not the account form.
    assert_ne!(validators[0], account);
    assert!(validators[0].starts_with("secretvaloper"));
}

#[test]
fn register_rejects_inactive_validator() {
    let (account, _operator) = addresses(&[1, 2, 3, 4, 5, 6]);
    let (_other_account, other_operator) = addresses(&[7, 8, 9, 10]);
    let mut store = fresh_store("owner");
    let active = vec![other_operator];
    let r = register(&mut store, &env(&account, 1), Some("key-1".to_string()), &active);
    assert_eq!(r, Err(ContractError::NotAnActiveValidator));
    assert!(query_validators(&store).validators.is_empty());
}

#[test]
fn register_rejects_malformed_address() {
    let mut store = fresh_store("owner");
    let active: Vec<String> = vec![];
    let r = register(
        &mut store,
        &env("not a bech32 address", 1),
        Some("key-1".to_string()),
        &active,
    );
    assert_eq!(r, Err(ContractError::InvalidAddressEncoding));
    assert!(query_validators(&store).validators.is_empty());
}

#[test]
fn register_requires_submission_key() {
    let (account, operator) = addresses(&[1, 2, 3, 4, 5, 6]);
    let mut store = fresh_store("owner");
    let active = vec![operator];
    let r = register(&mut store, &env(&account, 1), None, &active);
    assert_eq!(r, Err(ContractError::MissingSubmissionKey));
    assert!(query_validators(&store).validators.is_empty());
}

#[test]
fn submit_with_unregistered_key_fails() {
    let mut store = fresh_store("owner");
    let r = predict_prices(
        &mut store,
        &env("anyone", 5),
        vec![price("SCRT", 100)],
        "never-registered".to_string(),
    );
    assert_eq!(r, Err(ContractError::Unauthorized));
    assert!(query_symbols(&store).symbols.is_empty());
}

fn store_with_three_validators() -> (OracleStore, Vec<String>) {
    let (a1, o1) = addresses(&[1, 1, 1, 1]);
    let (a2, o2) = addresses(&[2, 2, 2, 2]);
    let (a3, o3) = addresses(&[3, 3, 3, 3]);
    let mut store = fresh_store("owner");
    let active = vec![o1.clone(), o2.clone(), o3.clone()];
    register(&mut store, &env(&a1, 1), Some("k1".to_string()), &active).unwrap();
    register(&mut store, &env(&a2, 1), Some("k2".to_string()), &active).unwrap();
    register(&mut store, &env(&a3, 1), Some("k3".to_string()), &active).unwrap();
    (store, vec![o1, o2, o3])
}

#[test]
fn aggregation_is_floor_mean() {
    let (mut store, _) = store_with_three_validators();
    submit(&mut store, "k1", 10, vec![price("SCRT", 100)]);
    submit(&mut store, "k2", 11, vec![price("SCRT", 200)]);
    submit(&mut store, "k3", 12, vec![price("SCRT", 300)]);
    let answer = query_price(&store, vec!["SCRT".to_string()]).prices;
    assert_eq!(answer.len(), 1);
    assert_eq!(answer[0].symbol, "SCRT");
    assert_eq!(answer[0].price, 200);
}

#[test]
fn aggregation_floors_the_mean() {
    let (mut store, _) = store_with_three_validators();
    submit(&mut store, "k1", 10, vec![price("SCRT", 100)]);
    submit(&mut store, "k2", 11, vec![price("SCRT", 101)]);
    let answer = query_price(&store, vec!["SCRT".to_string()]).prices;
    assert_eq!(answer[0].price, 100);
}

#[test]
fn unknown_symbol_is_omitted() {
    let (mut store, _) = store_with_three_validators();
    submit(&mut store, "k1", 10, vec![price("SCRT", 100)]);
    let answer = query_price(&store, vec!["UNKNOWN".to_string()]).prices;
    assert!(answer.is_empty());
    let mixed = query_price(&store, vec!["UNKNOWN".to_string(), "SCRT".to_string()]).prices;
    assert_eq!(mixed.len(), 1);
    assert_eq!(mixed[0].symbol, "SCRT");
}

#[test]
fn resubmission_upserts_in_place() {
    let (mut store, operators) = store_with_three_validators();
    submit(&mut store, "k1", 10, vec![price("SCRT", 100)]);
    submit(&mut store, "k1", 20, vec![price("SCRT", 100)]);
    let predictions = get_all_predictions(&store, "SCRT".to_string());
    assert_eq!(predictions.len(), 1);
    assert_eq!(predictions[0].validator, operators[0]);
    assert_eq!(predictions[0].timestamp, 20);
    assert_eq!(predictions[0].prediction.price, 100);
}

#[test]
fn resubmission_overwrites_price() {
    let (mut store, _) = store_with_three_validators();
    submit(&mut store, "k1", 10, vec![price("SCRT", 100)]);
    submit(&mut store, "k2", 11, vec![price("SCRT", 500)]);
    submit(&mut store, "k2", 12, vec![price("SCRT", 300)]);
    let answer = query_price(&store, vec!["SCRT".to_string()]).prices;
    // (100 + 300) / 2, the earlier 500 was overwritten in place.
    assert_eq!(answer[0].price, 200);
    let predictions = get_all_predictions(&store, "SCRT".to_string());
    assert_eq!(predictions.len(), 2);
}

#[test]
fn symbol_registered_exactly_once() {
    let (mut store, _) = store_with_three_validators();
    submit(&mut store, "k1", 10, vec![price("SCRT", 100)]);
    submit(&mut store, "k2", 11, vec![price("SCRT", 200)]);
    submit(&mut store, "k1", 12, vec![price("SCRT", 150), price("ETH", 9)]);
    assert_eq!(
        query_symbols(&store).symbols,
        vec!["SCRT".to_string(), "ETH".to_string()]
    );
}

#[test]
fn validators_keep_registration_order() {
    let (a1, o1) = addresses(&[1, 1, 1, 1]);
    let (a2, o2) = addresses(&[2, 2, 2, 2]);
    let mut store = fresh_store("owner");
    let active = vec![o1.clone(), o2.clone()];
    register(&mut store, &env(&a1, 1), Some("k1".to_string()), &active).unwrap();
    register(&mut store, &env(&a2, 2), Some("k2".to_string()), &active).unwrap();
    register(&mut store, &env(&a1, 3), Some("k1-again".to_string()), &active).unwrap();
    assert_eq!(query_validators(&store).validators, vec![o1.clone(), o2, o1]);
}

#[test]
fn duplicate_key_resolves_to_first_registration() {
    let (a1, o1) = addresses(&[1, 1, 1, 1]);
    let (a2, o2) = addresses(&[2, 2, 2, 2]);
    let mut store = fresh_store("owner");
    let active = vec![o1.clone(), o2.clone()];
    register(&mut store, &env(&a1, 1), Some("dup".to_string()), &active).unwrap();
    register(&mut store, &env(&a2, 2), Some("dup".to_string()), &active).unwrap();
    assert_eq!(get_validator_from_key(&store, "dup".to_string()), Ok(o1.clone()));
    submit(&mut store, "dup", 3, vec![price("SCRT", 42)]);
    let predictions = get_all_predictions(&store, "SCRT".to_string());
    assert_eq!(predictions.len(), 1);
    assert_eq!(predictions[0].validator, o1);
}

#[test]
fn unknown_key_is_unauthorized() {
    let (store, _) = store_with_three_validators();
    assert_eq!(
        get_validator_from_key(&store, "k9".to_string()),
        Err(ContractError::Unauthorized)
    );
}

#[test]
fn batch_is_ingested_in_order() {
    let (mut store, _) = store_with_three_validators();
    submit(
        &mut store,
        "k1",
        10,
        vec![price("SCRT", 10), price("ETH", 20), price("BTC", 30)],
    );
    assert_eq!(
        query_symbols(&store).symbols,
        vec!["SCRT".to_string(), "ETH".to_string(), "BTC".to_string()]
    );
    let answer = query_price(&store, vec!["BTC".to_string(), "SCRT".to_string()]).prices;
    assert_eq!(answer.len(), 2);
    assert_eq!(answer[0].symbol, "BTC");
    assert_eq!(answer[0].price, 30);
    assert_eq!(answer[1].symbol, "SCRT");
    assert_eq!(answer[1].price, 10);
}

#[test]
fn extreme_price_is_accepted_as_is() {
    let (mut store, _) = store_with_three_validators();
    submit(&mut store, "k1", 1, vec![price("SCRT", u128::MAX)]);
    let answer = query_price(&store, vec!["SCRT".to_string()]).prices;
    assert_eq!(answer[0].price, u128::MAX);
}

#[test]
fn empty_batch_succeeds_and_changes_nothing() {
    let (mut store, _) = store_with_three_validators();
    predict_prices(&mut store, &env("anyone", 1), Vec::new(), "k1".to_string()).unwrap();
    assert!(query_symbols(&store).symbols.is_empty());
}

#[test]
fn handle_and_query_dispatch() {
    let (a1, o1) = addresses(&[4, 4, 4, 4]);
    let mut store = fresh_store("owner");
    let active = vec![o1.clone()];
    let r = handle(
        &mut store,
        &env(&a1, 1),
        HandleMsg::Register {
            validator_key: Some("k".to_string()),
        },
        &active,
    );
    assert_eq!(r, Ok(()));
    let r = handle(
        &mut store,
        &env("anyone", 7),
        HandleMsg::PredictPrices {
            prices: vec![price("SCRT", 77)],
            validator_key: "k".to_string(),
        },
        &active,
    );
    assert_eq!(r, Ok(()));
    match query(
        &store,
        QueryMsg::GetPrice {
            symbols: vec!["SCRT".to_string()],
        },
    ) {
        QueryAnswer::Prices(p) => {
            assert_eq!(p.prices.len(), 1);
            assert_eq!(p.prices[0].price, 77);
        }
        _ => panic!("expected a prices answer"),
    }
    match query(&store, QueryMsg::GetSymbols {}) {
        QueryAnswer::Symbols(s) => assert_eq!(s.symbols, vec!["SCRT".to_string()]),
        _ => panic!("expected a symbols answer"),
    }
    match query(&store, QueryMsg::GetValidators {}) {
        QueryAnswer::Validators(v) => assert_eq!(v.validators, vec![o1]),
        _ => panic!("expected a validators answer"),
    }
}

#[test]
fn init_sets_owner_and_empty_state() {
    let store = fresh_store("the-deployer");
    let state = config_read(&store);
    assert_eq!(state.owner, "the-deployer");
    assert!(state.validators.is_empty());
    assert!(state.symbols.is_empty());
    assert!(query_symbols(&store).symbols.is_empty());
    assert!(query_validators(&store).validators.is_empty());
}

#[test]
fn storage_layer_upserts_by_validator() {
    let mut store = fresh_store("owner");
    let symbol = "SCRT".to_string();
    assert!(!symbol_exists(&store, &symbol));
    store_symbol(&mut store, &symbol);
    assert!(symbol_exists(&store, &symbol));
    let first = Prediction {
        prediction: price("SCRT", 10),
        validator: "valoper-a".to_string(),
        timestamp: 1,
    };
    let second = Prediction {
        prediction: price("SCRT", 20),
        validator: "valoper-b".to_string(),
        timestamp: 2,
    };
    let overwrite = Prediction {
        prediction: price("SCRT", 30),
        validator: "valoper-a".to_string(),
        timestamp: 3,
    };
    store_prediction(&mut store, "SCRT".to_string(), &first);
    store_prediction(&mut store, "SCRT".to_string(), &second);
    store_prediction(&mut store, "SCRT".to_string(), &overwrite);
    let predictions = get_all_predictions(&store, "SCRT".to_string());
    assert_eq!(predictions.len(), 2);
    // The overwritten entry keeps its original position.
    assert_eq!(predictions[0].validator, "valoper-a");
    assert_eq!(predictions[0].prediction.price, 30);
    assert_eq!(predictions[0].timestamp, 3);
    assert_eq!(predictions[1].validator, "valoper-b");
}
