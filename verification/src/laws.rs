use vstd::prelude::*;

use crate::model::{
    apply_price, apply_prices, contains_string, find_ledger, find_validator,
    lemma_find_binding_props, lemma_find_ledger_at, lemma_find_ledger_props,
    lemma_find_validator_at, lemma_find_validator_props, predictions_for, resolve_key,
    upsert_prediction, validator_addresses, wf_ledger, wf_store, BindingModel, PredictionModel,
    PriceModel, StoreModel,
};

verus! {

/// A submission key that no binding carries resolves to no validator, so a
/// batch submitted under a never-registered key always fails, whatever its
/// price contents.
pub proof fn lemma_unregistered_key(validators: Seq<BindingModel>, key: Seq<char>)
    requires
        forall|i: int|
            0 <= i < validators.len() ==> (#[trigger] validators[i]).validator_key != key,
    ensures
        resolve_key(validators, key) is None,
{
    lemma_find_binding_props(validators, key);
}

/// Registration appends exactly one address: the validators query after a
/// successful registration answers as before, with the new operator address
/// at the end and the earlier entries unchanged in order.
pub proof fn lemma_validators_order(validators: Seq<BindingModel>, b: BindingModel)
    ensures
        validator_addresses(validators.push(b)) == validator_addresses(validators).push(
            b.validator,
        ),
{
    assert(validator_addresses(validators.push(b)) =~= validator_addresses(validators).push(
        b.validator,
    ));
}

/// Ingesting one entry preserves well-formedness: ledgers stay one per
/// symbol, each ledger keeps one live prediction per validator, and the
/// symbol registry stays free of duplicates.
pub proof fn lemma_wf_apply_price(
    s: StoreModel,
    price: PriceModel,
    validator: Seq<char>,
    timestamp: u64,
)
    requires
        wf_store(s),
    ensures
        wf_store(apply_price(s, price, validator, timestamp)),
{
    let post = apply_price(s, price, validator, timestamp);
    let p = PredictionModel { prediction: price, validator: validator, timestamp: timestamp };
    if !contains_string(s.state.symbols, price.symbol) {
        assert forall|i: int, j: int|
            0 <= i < j < post.state.symbols.len() implies post.state.symbols[i]
            != post.state.symbols[j] by {
            if j == s.state.symbols.len() {
                assert(!(exists|k: int|
                    0 <= k < s.state.symbols.len() && s.state.symbols[k] == price.symbol));
                assert(s.state.symbols[i] != price.symbol);
            }
        }
    }
    lemma_find_ledger_props(s.ledgers, price.symbol);
    let f = find_ledger(s.ledgers, price.symbol);
    if f >= 0 {
        let old_preds = s.ledgers[f].predictions;
        lemma_find_validator_props(old_preds, validator);
        let k = find_validator(old_preds, validator);
        let up = upsert_prediction(old_preds, p);
        assert(wf_ledger(s.ledgers[f]));
        assert forall|a: int, b: int| 0 <= a < b < up.len() implies up[a].validator
            != up[b].validator by {
            if k >= 0 {
                assert(old_preds[k].validator == validator);
                assert(up[a].validator == old_preds[a].validator);
                assert(up[b].validator == old_preds[b].validator);
            } else {
                if b == old_preds.len() {
                    assert(up[b] == p);
                    assert(old_preds[a].validator != validator);
                } else {
                    assert(up[a].validator == old_preds[a].validator);
                    assert(up[b].validator == old_preds[b].validator);
                }
            }
        }
        assert forall|i: int| 0 <= i < post.ledgers.len() implies wf_ledger(
            #[trigger] post.ledgers[i],
        ) by {
            if i != f {
                assert(post.ledgers[i] == s.ledgers[i]);
            }
        }
        assert forall|i: int, j: int| 0 <= i < j < post.ledgers.len() implies post.ledgers[i].symbol
            != post.ledgers[j].symbol by {
            assert(post.ledgers[i].symbol == s.ledgers[i].symbol);
            assert(post.ledgers[j].symbol == s.ledgers[j].symbol);
        }
    } else {
        assert forall|i: int, j: int| 0 <= i < j < post.ledgers.len() implies post.ledgers[i].symbol
            != post.ledgers[j].symbol by {
            if j == s.ledgers.len() {
                assert(s.ledgers[i].symbol != price.symbol);
            }
        }
        assert forall|i: int| 0 <= i < post.ledgers.len() implies wf_ledger(
            #[trigger] post.ledgers[i],
        ) by {
            if i < s.ledgers.len() {
                assert(post.ledgers[i] == s.ledgers[i]);
            } else {
                assert(post.ledgers[i].predictions =~= seq![p]);
            }
        }
    }
}

/// Ingesting a whole batch preserves well-formedness.
pub proof fn lemma_wf_apply_prices(
    s: StoreModel,
    prices: Seq<PriceModel>,
    validator: Seq<char>,
    timestamp: u64,
)
    requires
        wf_store(s),
    ensures
        wf_store(apply_prices(s, prices, validator, timestamp)),
    decreases prices.len(),
{
    if prices.len() > 0 {
        lemma_wf_apply_price(s, prices[0], validator, timestamp);
        lemma_wf_apply_prices(
            apply_price(s, prices[0], validator, timestamp),
            prices.drop_first(),
            validator,
            timestamp,
        );
    }
}

/// After one entry is ingested, the ledger of its symbol holds a prediction
/// by that validator with exactly the submitted entry and timestamp; in a
/// well-formed store it is the only prediction by that validator for that
/// symbol.
pub proof fn lemma_submitted_prediction(
    s: StoreModel,
    price: PriceModel,
    validator: Seq<char>,
    timestamp: u64,
)
    ensures
        ({
            let preds = predictions_for(
                apply_price(s, price, validator, timestamp).ledgers,
                price.symbol,
            );
            let k = find_validator(preds, validator);
            &&& 0 <= k < preds.len()
            &&& preds[k] == PredictionModel {
                prediction: price,
                validator: validator,
                timestamp: timestamp,
            }
            &&& wf_store(s) ==> forall|j: int|
                0 <= j < preds.len() && j != k ==> (#[trigger] preds[j]).validator != validator
        }),
{
    let post = apply_price(s, price, validator, timestamp);
    let p = PredictionModel { prediction: price, validator: validator, timestamp: timestamp };
    lemma_find_ledger_props(s.ledgers, price.symbol);
    let f = find_ledger(s.ledgers, price.symbol);
    if f >= 0 {
        lemma_find_ledger_at(post.ledgers, price.symbol, f);
        let old_preds = s.ledgers[f].predictions;
        lemma_find_validator_props(old_preds, validator);
        let k0 = find_validator(old_preds, validator);
        if k0 >= 0 {
            lemma_find_validator_at(upsert_prediction(old_preds, p), validator, k0);
        } else {
            lemma_find_validator_at(upsert_prediction(old_preds, p), validator, old_preds.len() as int);
        }
    } else {
        lemma_find_ledger_at(post.ledgers, price.symbol, s.ledgers.len() as int);
        assert(predictions_for(post.ledgers, price.symbol) =~= seq![p]);
    }
    if wf_store(s) {
        lemma_wf_apply_price(s, price, validator, timestamp);
        let preds = predictions_for(post.ledgers, price.symbol);
        let k = find_validator(preds, validator);
        let lf = find_ledger(post.ledgers, price.symbol);
        assert(wf_ledger(post.ledgers[lf]));
        assert forall|j: int| 0 <= j < preds.len() && j != k implies (
        #[trigger] preds[j]).validator != validator by {
            if j < k {
                assert(preds[j].validator != preds[k].validator);
            } else {
                assert(preds[k].validator != preds[j].validator);
            }
        }
    }
}

/// Submitting the same entry twice from the same validator is idempotent up
/// to the timestamp: the store is exactly what a single submission at the
/// second call's block time leaves behind.
pub proof fn lemma_submit_twice(
    s: StoreModel,
    price: PriceModel,
    validator: Seq<char>,
    t1: u64,
    t2: u64,
)
    ensures
        apply_price(apply_price(s, price, validator, t1), price, validator, t2) == apply_price(
            s,
            price,
            validator,
            t2,
        ),
{
    let p1 = PredictionModel { prediction: price, validator: validator, timestamp: t1 };
    let p2 = PredictionModel { prediction: price, validator: validator, timestamp: t2 };
    let s1 = apply_price(s, price, validator, t1);
    assert(contains_string(s1.state.symbols, price.symbol)) by {
        if contains_string(s.state.symbols, price.symbol) {
        } else {
            assert(s1.state.symbols[s.state.symbols.len() as int] == price.symbol);
        }
    }
    lemma_find_ledger_props(s.ledgers, price.symbol);
    let f = find_ledger(s.ledgers, price.symbol);
    if f >= 0 {
        lemma_find_ledger_at(s1.ledgers, price.symbol, f);
        let preds = s.ledgers[f].predictions;
        lemma_find_validator_props(preds, validator);
        let k = find_validator(preds, validator);
        if k >= 0 {
            let u1 = preds.update(k, p1);
            lemma_find_validator_at(u1, validator, k);
            assert(upsert_prediction(u1, p2) =~= preds.update(k, p2));
        } else {
            let u1 = preds.push(p1);
            lemma_find_validator_at(u1, validator, preds.len() as int);
            assert(upsert_prediction(u1, p2) =~= preds.push(p2));
        }
        assert(apply_price(s1, price, validator, t2) =~~= apply_price(s, price, validator, t2));
    } else {
        lemma_find_ledger_at(s1.ledgers, price.symbol, s.ledgers.len() as int);
        assert(find_validator(seq![p1], validator) == 0);
        assert(upsert_prediction(seq![p1], p2) =~= seq![p2]);
        assert(apply_price(s1, price, validator, t2) =~~= apply_price(s, price, validator, t2));
    }
}

/// Submitting a prediction for an unseen symbol appends that symbol to the
/// registry exactly once: a further submission for the same symbol, by any
/// validator at any time, leaves the registry unchanged.
pub proof fn lemma_symbol_growth(
    s: StoreModel,
    p1: PriceModel,
    p2: PriceModel,
    v1: Seq<char>,
    v2: Seq<char>,
    t1: u64,
    t2: u64,
)
    requires
        !contains_string(s.state.symbols, p1.symbol),
        p2.symbol == p1.symbol,
    ensures
        ({
            let s1 = apply_price(s, p1, v1, t1);
            &&& s1.state.symbols == s.state.symbols.push(p1.symbol)
            &&& apply_price(s1, p2, v2, t2).state.symbols == s1.state.symbols
        }),
{
    let s1 = apply_price(s, p1, v1, t1);
    assert(contains_string(s1.state.symbols, p1.symbol)) by {
        assert(s1.state.symbols[s.state.symbols.len() as int] == p1.symbol);
    }
}

} // verus!
