use vstd::prelude::*;

verus! {

// ---------------------------------------------------------------------------
// Mathematical views of the oracle's data.
// ---------------------------------------------------------------------------

/// View of one `{symbol, price}` entry.
#[verifier::ext_equal]
pub struct PriceModel {
    pub symbol: Seq<char>,
    pub price: u128,
}

/// View of one submission-key binding: maps a submission key to a
/// validator operator address.
#[verifier::ext_equal]
pub struct BindingModel {
    pub validator: Seq<char>,
    pub validator_key: Seq<char>,
}

/// View of the oracle's singleton state.
#[verifier::ext_equal]
pub struct StateModel {
    pub owner: Seq<char>,
    pub validators: Seq<BindingModel>,
    pub symbols: Seq<Seq<char>>,
}

/// View of one stored prediction.
#[verifier::ext_equal]
pub struct PredictionModel {
    pub prediction: PriceModel,
    pub validator: Seq<char>,
    pub timestamp: u64,
}

/// View of the prediction ledger of one symbol.
#[verifier::ext_equal]
pub struct LedgerModel {
    pub symbol: Seq<char>,
    pub predictions: Seq<PredictionModel>,
}

/// View of the whole persisted store: the singleton state plus one
/// prediction ledger per symbol namespace.
#[verifier::ext_equal]
pub struct StoreModel {
    pub state: StateModel,
    pub ledgers: Seq<LedgerModel>,
}

// ---------------------------------------------------------------------------
// Membership and first-match lookups.
// ---------------------------------------------------------------------------

/// Whether `x` occurs among `items`.
pub open spec fn contains_string(items: Seq<Seq<char>>, x: Seq<char>) -> bool {
    exists|i: int| 0 <= i < items.len() && items[i] == x
}

/// Index of the first binding whose submission key is `key`, or `-1` if none.
pub open spec fn find_binding(validators: Seq<BindingModel>, key: Seq<char>) -> int
    decreases validators.len(),
{
    if validators.len() == 0 {
        -1
    } else if validators[0].validator_key == key {
        0
    } else {
        let r = find_binding(validators.drop_first(), key);
        if r < 0 {
            -1
        } else {
            r + 1
        }
    }
}

/// The validator bound to submission key `key`; the first matching binding
/// wins when duplicate keys exist.
pub open spec fn resolve_key(validators: Seq<BindingModel>, key: Seq<char>) -> Option<Seq<char>> {
    let i = find_binding(validators, key);
    if i >= 0 {
        Some(validators[i].validator)
    } else {
        None
    }
}

/// Index of the first ledger for `symbol`, or `-1` if none.
pub open spec fn find_ledger(ledgers: Seq<LedgerModel>, symbol: Seq<char>) -> int
    decreases ledgers.len(),
{
    if ledgers.len() == 0 {
        -1
    } else if ledgers[0].symbol == symbol {
        0
    } else {
        let r = find_ledger(ledgers.drop_first(), symbol);
        if r < 0 {
            -1
        } else {
            r + 1
        }
    }
}

/// Index of the first prediction made by `validator`, or `-1` if none.
pub open spec fn find_validator(preds: Seq<PredictionModel>, validator: Seq<char>) -> int
    decreases preds.len(),
{
    if preds.len() == 0 {
        -1
    } else if preds[0].validator == validator {
        0
    } else {
        let r = find_validator(preds.drop_first(), validator);
        if r < 0 {
            -1
        } else {
            r + 1
        }
    }
}

/// The predictions stored for `symbol`, empty if no ledger exists for it.
pub open spec fn predictions_for(ledgers: Seq<LedgerModel>, symbol: Seq<char>) -> Seq<
    PredictionModel,
> {
    let i = find_ledger(ledgers, symbol);
    if i >= 0 {
        ledgers[i].predictions
    } else {
        Seq::empty()
    }
}

// ---------------------------------------------------------------------------
// Ingestion: upsert by validator, ledger update, symbol registry growth.
// ---------------------------------------------------------------------------

/// Insert-or-overwrite keyed by validator: if the validator already has a
/// prediction, it is overwritten in place at its existing position;
/// otherwise the prediction is appended.
pub open spec fn upsert_prediction(preds: Seq<PredictionModel>, p: PredictionModel) -> Seq<
    PredictionModel,
> {
    let i = find_validator(preds, p.validator);
    if i >= 0 {
        preds.update(i, p)
    } else {
        preds.push(p)
    }
}

/// Upsert `p` into the ledger of `symbol`, creating that ledger if it does
/// not exist yet.
pub open spec fn upsert_ledgers(
    ledgers: Seq<LedgerModel>,
    symbol: Seq<char>,
    p: PredictionModel,
) -> Seq<LedgerModel> {
    let i = find_ledger(ledgers, symbol);
    if i >= 0 {
        ledgers.update(
            i,
            LedgerModel {
                symbol: ledgers[i].symbol,
                predictions: upsert_prediction(ledgers[i].predictions, p),
            },
        )
    } else {
        ledgers.push(LedgerModel { symbol: symbol, predictions: seq![p] })
    }
}

/// Effect of ingesting one `{symbol, price}` entry for `validator` at
/// `timestamp`: register the symbol if unseen, then upsert the prediction.
pub open spec fn apply_price(
    s: StoreModel,
    price: PriceModel,
    validator: Seq<char>,
    timestamp: u64,
) -> StoreModel {
    let symbols = if contains_string(s.state.symbols, price.symbol) {
        s.state.symbols
    } else {
        s.state.symbols.push(price.symbol)
    };
    let p = PredictionModel { prediction: price, validator: validator, timestamp: timestamp };
    StoreModel {
        state: StateModel {
            owner: s.state.owner,
            validators: s.state.validators,
            symbols: symbols,
        },
        ledgers: upsert_ledgers(s.ledgers, price.symbol, p),
    }
}

/// Effect of ingesting a batch of entries, in order.
pub open spec fn apply_prices(
    s: StoreModel,
    prices: Seq<PriceModel>,
    validator: Seq<char>,
    timestamp: u64,
) -> StoreModel
    decreases prices.len(),
{
    if prices.len() == 0 {
        s
    } else {
        apply_prices(
            apply_price(s, prices[0], validator, timestamp),
            prices.drop_first(),
            validator,
            timestamp,
        )
    }
}

// ---------------------------------------------------------------------------
// Aggregation: unweighted arithmetic mean with floor division.
// ---------------------------------------------------------------------------

/// Sum of the price fields of all stored predictions.
pub open spec fn sum_prices(preds: Seq<PredictionModel>) -> int
    decreases preds.len(),
{
    if preds.len() == 0 {
        0
    } else {
        preds[0].prediction.price + sum_prices(preds.drop_first())
    }
}

/// Arithmetic mean of all stored prices, with floor division by the count.
/// Meaningful only when at least one prediction exists.
pub open spec fn mean_price(preds: Seq<PredictionModel>) -> int {
    sum_prices(preds) / (preds.len() as int)
}

/// The aggregated answer for a sequence of requested symbols: one entry per
/// symbol that has at least one prediction, in request order, holding the
/// mean price; symbols without predictions are omitted.
pub open spec fn aggregated_prices(ledgers: Seq<LedgerModel>, symbols: Seq<Seq<char>>) -> Seq<
    PriceModel,
>
    decreases symbols.len(),
{
    if symbols.len() == 0 {
        Seq::empty()
    } else {
        let preds = predictions_for(ledgers, symbols[0]);
        let rest = aggregated_prices(ledgers, symbols.drop_first());
        if preds.len() == 0 {
            rest
        } else {
            seq![PriceModel { symbol: symbols[0], price: mean_price(preds) as u128 }] + rest
        }
    }
}

/// The machine-level bound the aggregator needs: for every requested symbol,
/// the sum of its stored prices fits in the price type.
pub open spec fn sums_fit(ledgers: Seq<LedgerModel>, symbols: Seq<Seq<char>>) -> bool {
    forall|i: int|
        0 <= i < symbols.len() ==> sum_prices(predictions_for(ledgers, symbols[i])) <= u128::MAX
}

/// The validator field of every binding, in insertion order.
pub open spec fn validator_addresses(validators: Seq<BindingModel>) -> Seq<Seq<char>> {
    Seq::new(validators.len(), |i: int| validators[i].validator)
}

// ---------------------------------------------------------------------------
// Well-formedness.
// ---------------------------------------------------------------------------

/// A ledger holds at most one live prediction per validator.
pub open spec fn wf_ledger(l: LedgerModel) -> bool {
    forall|i: int, j: int|
        0 <= i < j < l.predictions.len() ==> l.predictions[i].validator != l.predictions[j].validator
}

/// Each symbol has at most one ledger, each ledger is well formed, and the
/// known-symbol registry holds no duplicates.
pub open spec fn wf_store(s: StoreModel) -> bool {
    &&& forall|i: int, j: int|
        0 <= i < j < s.ledgers.len() ==> s.ledgers[i].symbol != s.ledgers[j].symbol
    &&& forall|i: int| 0 <= i < s.ledgers.len() ==> wf_ledger(#[trigger] s.ledgers[i])
    &&& forall|i: int, j: int|
        0 <= i < j < s.state.symbols.len() ==> s.state.symbols[i] != s.state.symbols[j]
}

// ---------------------------------------------------------------------------
// Characterizations of the first-match lookups.
// ---------------------------------------------------------------------------

/// `find_binding` returns the first index bound to `key`, or `-1` if the key
/// is bound nowhere.
pub proof fn lemma_find_binding_props(validators: Seq<BindingModel>, key: Seq<char>)
    ensures
        -1 <= find_binding(validators, key) < validators.len(),
        find_binding(validators, key) == -1 <==> (forall|j: int|
            0 <= j < validators.len() ==> (#[trigger] validators[j]).validator_key != key),
        find_binding(validators, key) >= 0 ==> validators[find_binding(
            validators,
            key,
        )].validator_key == key && (forall|j: int|
            0 <= j < find_binding(validators, key) ==> (#[trigger] validators[j]).validator_key
                != key),
    decreases validators.len(),
{
    if validators.len() == 0 {
    } else if validators[0].validator_key == key {
    } else {
        lemma_find_binding_props(validators.drop_first(), key);
        assert forall|j: int|
            0 < j < validators.len() implies validators.drop_first()[j - 1] == (
        #[trigger] validators[j]) by {}
    }
}

/// `find_ledger` returns the first index of a ledger for `symbol`, or `-1`
/// if no ledger for it exists.
pub proof fn lemma_find_ledger_props(ledgers: Seq<LedgerModel>, symbol: Seq<char>)
    ensures
        -1 <= find_ledger(ledgers, symbol) < ledgers.len(),
        find_ledger(ledgers, symbol) == -1 <==> (forall|j: int|
            0 <= j < ledgers.len() ==> (#[trigger] ledgers[j]).symbol != symbol),
        find_ledger(ledgers, symbol) >= 0 ==> ledgers[find_ledger(ledgers, symbol)].symbol == symbol
            && (forall|j: int|
            0 <= j < find_ledger(ledgers, symbol) ==> (#[trigger] ledgers[j]).symbol != symbol),
    decreases ledgers.len(),
{
    if ledgers.len() == 0 {
    } else if ledgers[0].symbol == symbol {
    } else {
        lemma_find_ledger_props(ledgers.drop_first(), symbol);
        assert forall|j: int| 0 < j < ledgers.len() implies ledgers.drop_first()[j - 1] == (
        #[trigger] ledgers[j]) by {}
    }
}

/// `find_validator` returns the first index of a prediction by `validator`,
/// or `-1` if that validator has none.
pub proof fn lemma_find_validator_props(preds: Seq<PredictionModel>, validator: Seq<char>)
    ensures
        -1 <= find_validator(preds, validator) < preds.len(),
        find_validator(preds, validator) == -1 <==> (forall|j: int|
            0 <= j < preds.len() ==> (#[trigger] preds[j]).validator != validator),
        find_validator(preds, validator) >= 0 ==> preds[find_validator(
            preds,
            validator,
        )].validator == validator && (forall|j: int|
            0 <= j < find_validator(preds, validator) ==> (#[trigger] preds[j]).validator
                != validator),
    decreases preds.len(),
{
    if preds.len() == 0 {
    } else if preds[0].validator == validator {
    } else {
        lemma_find_validator_props(preds.drop_first(), validator);
        assert forall|j: int| 0 < j < preds.len() implies preds.drop_first()[j - 1] == (
        #[trigger] preds[j]) by {}
    }
}

/// A first match for `symbol` at `i` pins `find_ledger` to `i`.
pub proof fn lemma_find_ledger_at(ledgers: Seq<LedgerModel>, symbol: Seq<char>, i: int)
    requires
        0 <= i < ledgers.len(),
        ledgers[i].symbol == symbol,
        forall|j: int| 0 <= j < i ==> (#[trigger] ledgers[j]).symbol != symbol,
    ensures
        find_ledger(ledgers, symbol) == i,
{
    lemma_find_ledger_props(ledgers, symbol);
    let f = find_ledger(ledgers, symbol);
    if f == -1 {
        assert(ledgers[i].symbol != symbol);
    } else if f < i {
        assert(ledgers[f].symbol == symbol);
    } else if f > i {
        assert(ledgers[i].symbol != symbol);
    }
}

/// A first match for `validator` at `i` pins `find_validator` to `i`.
pub proof fn lemma_find_validator_at(preds: Seq<PredictionModel>, validator: Seq<char>, i: int)
    requires
        0 <= i < preds.len(),
        preds[i].validator == validator,
        forall|j: int| 0 <= j < i ==> (#[trigger] preds[j]).validator != validator,
    ensures
        find_validator(preds, validator) == i,
{
    lemma_find_validator_props(preds, validator);
    let f = find_validator(preds, validator);
    if f == -1 {
        assert(preds[i].validator != validator);
    } else if f < i {
        assert(preds[f].validator == validator);
    } else if f > i {
        assert(preds[i].validator != validator);
    }
}

/// Every sum of stored prices is nonnegative.
pub proof fn lemma_sum_nonneg(preds: Seq<PredictionModel>)
    ensures
        sum_prices(preds) >= 0,
    decreases preds.len(),
{
    if preds.len() > 0 {
        lemma_sum_nonneg(preds.drop_first());
    }
}

} // verus!
