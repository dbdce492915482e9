use vstd::prelude::*;

use crate::addr::{derive_operator_address, derived_operator};
use crate::model::{
    aggregated_prices, apply_price, apply_prices, contains_string, lemma_sum_nonneg, mean_price,
    predictions_for, resolve_key, sum_prices, sums_fit, validator_addresses, BindingModel,
    LedgerModel, PredictionModel, PriceModel, StoreModel,
};
use crate::msg::{
    Env, HandleMsg, InitMsg, Price, QueryAnswer, QueryMsg, QueryPricesResponse,
    QuerySymbolsResponse, QueryValidatorsResponse,
};
use crate::state::{
    config_read, get_all_predictions, get_validator_from_key, store_prediction, store_symbol,
    symbol_exists, OracleStore, Prediction, State, ValidatorKey,
};
use crate::ContractError;

verus! {

/// What registration leaves behind, for every outcome: the caller's address
/// must re-encode under the operator prefix, the derived operator address
/// must be in the active set, and a submission key must be supplied; then
/// exactly one binding is appended and nothing else changes. On any failure
/// the named error is returned and the store is untouched.
pub open spec fn register_outcome(
    pre: StoreModel,
    post: StoreModel,
    r: Result<(), ContractError>,
    sender: Seq<char>,
    validator_key: Option<Seq<char>>,
    active: Seq<Seq<char>>,
) -> bool {
    match derived_operator(sender) {
        None => r == Err::<(), ContractError>(ContractError::InvalidAddressEncoding) && post
            == pre,
        Some(vop) => if !contains_string(active, vop) {
            r == Err::<(), ContractError>(ContractError::NotAnActiveValidator) && post == pre
        } else {
            match validator_key {
                None => r == Err::<(), ContractError>(ContractError::MissingSubmissionKey) && post
                    == pre,
                Some(key) => {
                    &&& r == Ok::<(), ContractError>(())
                    &&& post.state.validators == pre.state.validators.push(
                        BindingModel { validator: vop, validator_key: key },
                    )
                    &&& post.state.owner == pre.state.owner
                    &&& post.state.symbols == pre.state.symbols
                    &&& post.ledgers == pre.ledgers
                },
            }
        },
    }
}

/// What a batch submission leaves behind, for every outcome: a key that
/// resolves to no validator fails the whole batch with `Unauthorized` and
/// changes nothing; otherwise every entry is ingested, in order, for the
/// resolved validator at the given block time.
pub open spec fn predict_outcome(
    pre: StoreModel,
    post: StoreModel,
    r: Result<(), ContractError>,
    prices: Seq<PriceModel>,
    validator_key: Seq<char>,
    timestamp: u64,
) -> bool {
    match resolve_key(pre.state.validators, validator_key) {
        None => r == Err::<(), ContractError>(ContractError::Unauthorized) && post == pre,
        Some(validator) => r == Ok::<(), ContractError>(()) && post == apply_prices(
            pre,
            prices,
            validator,
            timestamp,
        ),
    }
}

/// Create the deployment's store: the caller becomes the owner; no
/// validators, no symbols, no predictions exist yet.
pub fn init(env: &Env, _msg: InitMsg) -> (store: OracleStore)
    ensures
        store@.state.owner == env.sender@,
        store@.state.validators == Seq::<BindingModel>::empty(),
        store@.state.symbols == Seq::<Seq<char>>::empty(),
        store@.ledgers == Seq::<LedgerModel>::empty(),
{
    let store = OracleStore {
        state: State { owner: env.sender.clone(), validators: Vec::new(), symbols: Vec::new() },
        ledgers: Vec::new(),
    };
    proof {
        assert(store@.state.validators =~= Seq::<BindingModel>::empty());
        assert(store@.state.symbols =~= Seq::<Seq<char>>::empty());
        assert(store@.ledgers =~= Seq::<LedgerModel>::empty());
    }
    store
}

/// Dispatch one mutating operation.
pub fn handle(
    store: &mut OracleStore,
    env: &Env,
    msg: HandleMsg,
    active_validators: &Vec<String>,
) -> (r: Result<(), ContractError>)
    ensures
        match msg {
            HandleMsg::Register { validator_key } => register_outcome(
                old(store)@,
                final(store)@,
                r,
                env.sender@,
                validator_key.deep_view(),
                active_validators.deep_view(),
            ),
            HandleMsg::PredictPrices { prices, validator_key } => predict_outcome(
                old(store)@,
                final(store)@,
                r,
                prices.deep_view(),
                validator_key@,
                env.time,
            ),
        },
{
    match msg {
        HandleMsg::Register { validator_key } => register(
            store,
            env,
            validator_key,
            active_validators,
        ),
        HandleMsg::PredictPrices { prices, validator_key } => predict_prices(
            store,
            env,
            prices,
            validator_key,
        ),
    }
}

/// Admit the caller as a validator: reinterpret its account address under
/// the validator-operator encoding, require the result to be in the active
/// validator set and a submission key to be supplied, then append the new
/// binding. Append-only: no existing binding is updated or removed.
pub fn register(
    store: &mut OracleStore,
    env: &Env,
    validator_key: Option<String>,
    active_validators: &Vec<String>,
) -> (r: Result<(), ContractError>)
    ensures
        register_outcome(
            old(store)@,
            final(store)@,
            r,
            env.sender@,
            validator_key.deep_view(),
            active_validators.deep_view(),
        ),
{
    let valoper = match derive_operator_address(&env.sender) {
        Some(v) => v,
        None => {
            return Err(ContractError::InvalidAddressEncoding);
        },
    };
    let n = active_validators.len();
    let mut i: usize = 0;
    let mut active = false;
    while i < n && !active
        invariant
            n == active_validators@.len(),
            i <= n,
            !active ==> forall|j: int|
                0 <= j < i ==> active_validators.deep_view()[j] != valoper@,
            active ==> contains_string(active_validators.deep_view(), valoper@),
        decreases n - i + (if active {
            0int
        } else {
            1int
        }),
    {
        if active_validators[i] == valoper {
            proof {
                assert(active_validators.deep_view()[i as int] == valoper@);
            }
            active = true;
        } else {
            i += 1;
        }
    }
    if !active {
        return Err(ContractError::NotAnActiveValidator);
    }
    let key = match validator_key {
        Some(k) => k,
        None => {
            return Err(ContractError::MissingSubmissionKey);
        },
    };
    let ghost vop = valoper@;
    let ghost keyv = key@;
    store.state.validators.push(ValidatorKey { validator: valoper, validator_key: key });
    proof {
        assert(store@.state.validators =~= old(store)@.state.validators.push(
            BindingModel { validator: vop, validator_key: keyv },
        ));
    }
    Ok(())
}

/// Ingest a batch of price predictions: resolve the submission key to a
/// validator (failing the whole batch with `Unauthorized` if it was never
/// registered), then for each entry register its symbol if unseen and
/// upsert the prediction into that symbol's ledger.
pub fn predict_prices(
    store: &mut OracleStore,
    env: &Env,
    prices: Vec<Price>,
    validator_key: String,
) -> (r: Result<(), ContractError>)
    ensures
        predict_outcome(
            old(store)@,
            final(store)@,
            r,
            prices.deep_view(),
            validator_key@,
            env.time,
        ),
{
    let timestamp = env.time;
    let validator = match get_validator_from_key(&*store, validator_key) {
        Ok(v) => v,
        Err(e) => {
            return Err(e);
        },
    };
    let ghost pre = store@;
    let ghost pricesm = prices.deep_view();
    let ghost v = validator@;
    let n = prices.len();
    let mut i: usize = 0;
    proof {
        assert(pricesm.skip(0) =~= pricesm);
    }
    while i < n
        invariant
            n == prices@.len(),
            pricesm == prices.deep_view(),
            i <= n,
            v == validator@,
            apply_prices(pre, pricesm, v, timestamp) == apply_prices(
                store@,
                pricesm.skip(i as int),
                v,
                timestamp,
            ),
        decreases n - i,
    {
        let ghost s0 = store@;
        let price = &prices[i];
        if !symbol_exists(&*store, &price.symbol) {
            store_symbol(store, &price.symbol);
        }
        let prediction = Prediction {
            prediction: Price { symbol: price.symbol.clone(), price: price.price },
            validator: validator.clone(),
            timestamp: timestamp,
        };
        store_prediction(store, price.symbol.clone(), &prediction);
        proof {
            assert(pricesm.skip(i as int)[0] == pricesm[i as int]);
            assert(pricesm.skip(i as int).drop_first() =~= pricesm.skip(i as int + 1));
            assert(store@ =~~= apply_price(s0, pricesm[i as int], v, timestamp));
        }
        i += 1;
    }
    proof {
        assert(pricesm.skip(n as int) =~= Seq::<PriceModel>::empty());
    }
    Ok(())
}

/// Dispatch one read-only query.
pub fn query(store: &OracleStore, msg: QueryMsg) -> (r: QueryAnswer)
    requires
        msg matches QueryMsg::GetPrice { symbols } ==> sums_fit(
            store@.ledgers,
            symbols.deep_view(),
        ),
    ensures
        match msg {
            QueryMsg::GetPrice { symbols } => r matches QueryAnswer::Prices(p)
                && p.prices.deep_view() == aggregated_prices(store@.ledgers, symbols.deep_view()),
            QueryMsg::GetSymbols {} => r matches QueryAnswer::Symbols(s) && s.symbols.deep_view()
                == store@.state.symbols,
            QueryMsg::GetValidators {} => r matches QueryAnswer::Validators(v)
                && v.validators.deep_view() == validator_addresses(store@.state.validators),
        },
{
    match msg {
        QueryMsg::GetPrice { symbols } => QueryAnswer::Prices(query_price(store, symbols)),
        QueryMsg::GetSymbols {} => QueryAnswer::Symbols(query_symbols(store)),
        QueryMsg::GetValidators {} => QueryAnswer::Validators(query_validators(store)),
    }
}

/// Aggregate the requested symbols: for each one with at least one stored
/// prediction, in request order, the arithmetic mean of its prices under
/// floor division; symbols without predictions are omitted.
pub fn query_price(store: &OracleStore, symbols: Vec<String>) -> (r: QueryPricesResponse)
    requires
        sums_fit(store@.ledgers, symbols.deep_view()),
    ensures
        r.prices.deep_view() == aggregated_prices(store@.ledgers, symbols.deep_view()),
{
    let ghost symsm = symbols.deep_view();
    let ghost ls = store@.ledgers;
    let mut prices: Vec<Price> = Vec::new();
    let n = symbols.len();
    let mut i: usize = 0;
    proof {
        assert(symsm.skip(0) =~= symsm);
        assert(prices.deep_view() + aggregated_prices(ls, symsm) =~= aggregated_prices(ls, symsm));
    }
    while i < n
        invariant
            n == symbols@.len(),
            symsm == symbols.deep_view(),
            ls == store@.ledgers,
            i <= n,
            sums_fit(ls, symsm),
            aggregated_prices(ls, symsm) == prices.deep_view() + aggregated_prices(
                ls,
                symsm.skip(i as int),
            ),
        decreases n - i,
    {
        let s = &symbols[i];
        let all_prices = get_all_predictions(store, s.clone());
        let ghost predsm = predictions_for(ls, symsm[i as int]);
        proof {
            assert(all_prices.deep_view() == predsm);
        }
        let m = all_prices.len();
        proof {
            assert(symsm.skip(i as int)[0] == symsm[i as int]);
            assert(symsm.skip(i as int).drop_first() =~= symsm.skip(i as int + 1));
        }
        if m > 0 {
            let mut sum: u128 = 0;
            let mut k: usize = 0;
            proof {
                assert(predsm.skip(0) =~= predsm);
            }
            while k < m
                invariant
                    m == all_prices@.len(),
                    predsm == all_prices.deep_view(),
                    m == predsm.len(),
                    k <= m,
                    sum_prices(predsm) <= u128::MAX,
                    sum_prices(predsm) == sum + sum_prices(predsm.skip(k as int)),
                decreases m - k,
            {
                proof {
                    assert(predsm.skip(k as int)[0] == predsm[k as int]);
                    assert(predsm.skip(k as int).drop_first() =~= predsm.skip(k as int + 1));
                    lemma_sum_nonneg(predsm.skip(k as int + 1));
                }
                sum = sum + all_prices[k].prediction.price;
                k += 1;
            }
            proof {
                assert(predsm.skip(m as int) =~= Seq::<PredictionModel>::empty());
                assert(sum == sum_prices(predsm));
            }
            let avg = sum / (m as u128);
            let ghost prices0 = prices.deep_view();
            prices.push(Price { symbol: s.clone(), price: avg });
            proof {
                assert(avg == mean_price(predsm) as u128);
                assert(prices.deep_view() =~= prices0.push(
                    PriceModel { symbol: symsm[i as int], price: mean_price(predsm) as u128 },
                ));
                assert(prices0 + aggregated_prices(ls, symsm.skip(i as int)) =~= prices.deep_view()
                    + aggregated_prices(ls, symsm.skip(i as int + 1)));
            }
        }
        i += 1;
    }
    proof {
        assert(symsm.skip(n as int) =~= Seq::<Seq<char>>::empty());
        assert(prices.deep_view() + aggregated_prices(ls, symsm.skip(n as int))
            =~= prices.deep_view());
    }
    QueryPricesResponse { prices }
}

/// The known-symbol registry, verbatim, in insertion order.
pub fn query_symbols(store: &OracleStore) -> (r: QuerySymbolsResponse)
    ensures
        r.symbols.deep_view() == store@.state.symbols,
{
    let state = config_read(store);
    let n = state.symbols.len();
    let mut symbols: Vec<String> = Vec::new();
    let mut i: usize = 0;
    while i < n
        invariant
            n == state.symbols@.len(),
            state == store.state,
            i <= n,
            symbols@.len() == i,
            forall|j: int| 0 <= j < i ==> (#[trigger] symbols@[j])@ == store@.state.symbols[j],
        decreases n - i,
    {
        symbols.push(state.symbols[i].clone());
        i += 1;
    }
    proof {
        assert forall|j: int| 0 <= j < n implies symbols.deep_view()[j] == store@.state.symbols[j]
        by {}
        assert(symbols.deep_view() =~= store@.state.symbols);
    }
    QuerySymbolsResponse { symbols }
}

/// The validator field of every binding, in registration order, duplicates
/// included.
pub fn query_validators(store: &OracleStore) -> (r: QueryValidatorsResponse)
    ensures
        r.validators.deep_view() == validator_addresses(store@.state.validators),
{
    let state = config_read(store);
    let n = state.validators.len();
    let mut validators: Vec<String> = Vec::new();
    let mut i: usize = 0;
    while i < n
        invariant
            n == state.validators@.len(),
            state == store.state,
            i <= n,
            validators@.len() == i,
            forall|j: int|
                0 <= j < i ==> (#[trigger] validators@[j])@
                    == store@.state.validators[j].validator,
        decreases n - i,
    {
        validators.push(state.validators[i].validator.clone());
        i += 1;
    }
    proof {
        assert forall|j: int| 0 <= j < n implies validators.deep_view()[j] == validator_addresses(
            store@.state.validators,
        )[j] by {}
        assert(validators.deep_view() =~= validator_addresses(store@.state.validators));
    }
    QueryValidatorsResponse { validators }
}

} // verus!
