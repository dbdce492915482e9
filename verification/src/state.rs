use vstd::pervasive::VecAdditionalExecFns;
use vstd::prelude::*;

use crate::model::{
    contains_string, find_binding, find_ledger, find_validator, lemma_find_binding_props,
    lemma_find_ledger_props, lemma_find_validator_props, predictions_for, resolve_key,
    upsert_ledgers, upsert_prediction, BindingModel, LedgerModel, PredictionModel, StateModel,
    StoreModel,
};
use crate::msg::Price;
use crate::ContractError;

verus! {

/// A submission-key binding, created at registration and immutable
/// thereafter.
#[derive(Clone, Debug, PartialEq)]
pub struct ValidatorKey {
    pub validator: String,
    pub validator_key: String,
}

impl View for ValidatorKey {
    type V = BindingModel;

    open spec fn view(&self) -> BindingModel {
        BindingModel { validator: self.validator@, validator_key: self.validator_key@ }
    }
}

impl DeepView for ValidatorKey {
    type V = BindingModel;

    open spec fn deep_view(&self) -> BindingModel {
        self@
    }
}

/// The oracle's singleton state: the deployer, the registered validators in
/// registration order, and the known symbols in insertion order.
#[derive(Clone, Debug, PartialEq)]
pub struct State {
    pub owner: String,
    pub validators: Vec<ValidatorKey>,
    pub symbols: Vec<String>,
}

impl View for State {
    type V = StateModel;

    open spec fn view(&self) -> StateModel {
        StateModel {
            owner: self.owner@,
            validators: self.validators.deep_view(),
            symbols: self.symbols.deep_view(),
        }
    }
}

impl DeepView for State {
    type V = StateModel;

    open spec fn deep_view(&self) -> StateModel {
        self@
    }
}

/// One stored prediction: the submitted entry, the validator it is
/// attributed to, and the block time of the submission.
#[derive(Clone, Debug, PartialEq)]
pub struct Prediction {
    pub prediction: Price,
    pub validator: String,
    pub timestamp: u64,
}

impl View for Prediction {
    type V = PredictionModel;

    open spec fn view(&self) -> PredictionModel {
        PredictionModel {
            prediction: self.prediction@,
            validator: self.validator@,
            timestamp: self.timestamp,
        }
    }
}

impl DeepView for Prediction {
    type V = PredictionModel;

    open spec fn deep_view(&self) -> PredictionModel {
        self@
    }
}

/// The prediction ledger of one symbol namespace.
#[derive(Clone, Debug, PartialEq)]
pub struct SymbolLedger {
    pub symbol: String,
    pub predictions: Vec<Prediction>,
}

impl View for SymbolLedger {
    type V = LedgerModel;

    open spec fn view(&self) -> LedgerModel {
        LedgerModel { symbol: self.symbol@, predictions: self.predictions.deep_view() }
    }
}

impl DeepView for SymbolLedger {
    type V = LedgerModel;

    open spec fn deep_view(&self) -> LedgerModel {
        self@
    }
}

/// The whole store a deployment owns: the singleton state and the
/// per-symbol prediction ledgers.
#[derive(Clone, Debug, PartialEq)]
pub struct OracleStore {
    pub state: State,
    pub ledgers: Vec<SymbolLedger>,
}

impl View for OracleStore {
    type V = StoreModel;

    open spec fn view(&self) -> StoreModel {
        StoreModel { state: self.state@, ledgers: self.ledgers.deep_view() }
    }
}

impl DeepView for OracleStore {
    type V = StoreModel;

    open spec fn deep_view(&self) -> StoreModel {
        self@
    }
}

/// Mutable access to the singleton state.
pub fn config(store: &mut OracleStore) -> (s: &mut State)
    ensures
        *s == old(store).state,
        final(store).state == *final(s),
        final(store).ledgers == old(store).ledgers,
{
    &mut store.state
}

/// Read-only access to the singleton state.
pub fn config_read(store: &OracleStore) -> (s: &State)
    ensures
        *s == store.state,
{
    &store.state
}

/// The validator bound to a submission key: a linear scan of the bindings
/// in registration order, first match wins. Fails with `Unauthorized` when
/// the key was never registered.
pub fn get_validator_from_key(store: &OracleStore, validator_key: String) -> (r: Result<
    String,
    ContractError,
>)
    ensures
        match resolve_key(store@.state.validators, validator_key@) {
            Some(v) => r matches Ok(a) && a@ == v,
            None => r == Err::<String, ContractError>(ContractError::Unauthorized),
        },
{
    let n = store.state.validators.len();
    let mut i: usize = 0;
    while i < n
        invariant
            n == store.state.validators.len(),
            i <= n,
            forall|j: int|
                0 <= j < i ==> (#[trigger] store@.state.validators[j]).validator_key
                    != validator_key@,
        decreases n - i,
    {
        let b = &store.state.validators[i];
        if b.validator_key == validator_key {
            proof {
                let bs = store@.state.validators;
                lemma_find_binding_props(bs, validator_key@);
                let f = find_binding(bs, validator_key@);
                assert(bs[i as int].validator_key == validator_key@);
                if f < i as int {
                    assert(bs[f].validator_key == validator_key@);
                }
                if f > i as int {
                    assert(bs[i as int].validator_key != validator_key@);
                }
                assert(f == i as int);
            }
            return Ok(b.validator.clone());
        }
        i += 1;
    }
    proof {
        lemma_find_binding_props(store@.state.validators, validator_key@);
    }
    Err(ContractError::Unauthorized)
}

/// Whether `symbol` is already in the known-symbol registry.
pub fn symbol_exists(store: &OracleStore, symbol: &String) -> (r: bool)
    ensures
        r == contains_string(store@.state.symbols, symbol@),
{
    let n = store.state.symbols.len();
    let mut i: usize = 0;
    while i < n
        invariant
            n == store.state.symbols.len(),
            i <= n,
            forall|j: int| 0 <= j < i ==> store@.state.symbols[j] != symbol@,
        decreases n - i,
    {
        if store.state.symbols[i] == *symbol {
            assert(store@.state.symbols[i as int] == symbol@);
            return true;
        }
        i += 1;
    }
    false
}

/// Append `symbol` to the known-symbol registry.
pub fn store_symbol(store: &mut OracleStore, symbol: &String)
    ensures
        final(store)@.state.symbols == old(store)@.state.symbols.push(symbol@),
        final(store)@.state.owner == old(store)@.state.owner,
        final(store)@.state.validators == old(store)@.state.validators,
        final(store)@.ledgers == old(store)@.ledgers,
{
    store.state.symbols.push(symbol.clone());
    proof {
        assert(store@.state.symbols =~= old(store)@.state.symbols.push(symbol@));
    }
}

/// An owned copy of a prediction.
fn clone_prediction(p: &Prediction) -> (r: Prediction)
    ensures
        r@ == p@,
{
    Prediction {
        prediction: Price { symbol: p.prediction.symbol.clone(), price: p.prediction.price },
        validator: p.validator.clone(),
        timestamp: p.timestamp,
    }
}

/// Upsert `prediction` into the ledger of `symbol`: scan that ledger in
/// order; overwrite the entry of the same validator in place if one exists,
/// else append; a missing ledger is created.
pub fn store_prediction(store: &mut OracleStore, symbol: String, prediction: &Prediction)
    ensures
        final(store)@.ledgers == upsert_ledgers(old(store)@.ledgers, symbol@, prediction@),
        final(store)@.state == old(store)@.state,
{
    let n = store.ledgers.len();
    let mut pos: usize = 0;
    let mut found = false;
    while pos < n && !found
        invariant
            n == store.ledgers.len(),
            *store == *old(store),
            pos <= n,
            !found ==> forall|j: int|
                0 <= j < pos ==> (#[trigger] store@.ledgers[j]).symbol != symbol@,
            found ==> pos < n && store@.ledgers[pos as int].symbol == symbol@ && forall|j: int|
                0 <= j < pos ==> (#[trigger] store@.ledgers[j]).symbol != symbol@,
        decreases n - pos + (if found {
            0int
        } else {
            1int
        }),
    {
        if store.ledgers[pos].symbol == symbol {
            found = true;
        } else {
            pos += 1;
        }
    }
    proof {
        lemma_find_ledger_props(old(store)@.ledgers, symbol@);
    }
    if found {
        proof {
            let ls0 = old(store)@.ledgers;
            let f = find_ledger(ls0, symbol@);
            assert(ls0[pos as int].symbol == symbol@);
            if f < pos as int {
                assert(ls0[f].symbol == symbol@);
            }
            if f > pos as int {
                assert(ls0[pos as int].symbol != symbol@);
            }
            assert(f == pos as int);
        }
        let mut ledger = store.ledgers.remove(pos);
        let ghost preds0 = ledger@.predictions;
        let m = ledger.predictions.len();
        let mut k: usize = 0;
        let mut vfound = false;
        while k < m && !vfound
            invariant
                m == ledger.predictions.len(),
                ledger@.predictions == preds0,
                k <= m,
                !vfound ==> forall|j: int|
                    0 <= j < k ==> (#[trigger] preds0[j]).validator != prediction@.validator,
                vfound ==> k < m && preds0[k as int].validator == prediction@.validator && forall|
                    j: int,
                |
                    0 <= j < k ==> (#[trigger] preds0[j]).validator != prediction@.validator,
            decreases m - k + (if vfound {
                0int
            } else {
                1int
            }),
        {
            if ledger.predictions[k].validator == prediction.validator {
                vfound = true;
            } else {
                k += 1;
            }
        }
        proof {
            lemma_find_validator_props(preds0, prediction@.validator);
            let f2 = find_validator(preds0, prediction@.validator);
            if vfound {
                assert(preds0[k as int].validator == prediction@.validator);
                if f2 < k as int {
                    assert(preds0[f2].validator == prediction@.validator);
                }
                if f2 > k as int {
                    assert(preds0[k as int].validator != prediction@.validator);
                }
                assert(f2 == k as int);
            } else {
                assert(f2 == -1);
            }
        }
        if vfound {
            ledger.predictions.set(k, clone_prediction(prediction));
        } else {
            ledger.predictions.push(clone_prediction(prediction));
        }
        proof {
            let up = upsert_prediction(preds0, prediction@);
            assert forall|j: int| 0 <= j < ledger@.predictions.len() implies ledger@.predictions[j]
                == up[j] by {}
            assert(ledger@.predictions =~= up);
        }
        store.ledgers.insert(pos, ledger);
        proof {
            let ls0 = old(store)@.ledgers;
            let updated = upsert_ledgers(ls0, symbol@, prediction@);
            assert(ledger@ =~= updated[pos as int]);
            assert forall|j: int| 0 <= j < store@.ledgers.len() implies store@.ledgers[j]
                == updated[j] by {}
            assert(store@.ledgers =~= updated);
        }
    } else {
        proof {
            let ls0 = old(store)@.ledgers;
            let f = find_ledger(ls0, symbol@);
            assert(f == -1);
        }
        let mut predictions: Vec<Prediction> = Vec::new();
        predictions.push(clone_prediction(prediction));
        store.ledgers.push(SymbolLedger { symbol: symbol, predictions: predictions });
        proof {
            let ls0 = old(store)@.ledgers;
            let updated = upsert_ledgers(ls0, symbol@, prediction@);
            assert(store@.ledgers[ls0.len() as int].predictions =~= seq![prediction@]);
            assert(store@.ledgers[ls0.len() as int] =~= updated[ls0.len() as int]);
            assert forall|j: int| 0 <= j < store@.ledgers.len() implies store@.ledgers[j]
                == updated[j] by {}
            assert(store@.ledgers =~= updated);
        }
    }
}

/// All predictions stored for `symbol`, in ledger order; empty when the
/// symbol has no ledger.
pub fn get_all_predictions(store: &OracleStore, symbol: String) -> (r: Vec<Prediction>)
    ensures
        r.deep_view() == predictions_for(store@.ledgers, symbol@),
{
    let n = store.ledgers.len();
    let mut pos: usize = 0;
    let mut found = false;
    while pos < n && !found
        invariant
            n == store.ledgers.len(),
            pos <= n,
            !found ==> forall|j: int|
                0 <= j < pos ==> (#[trigger] store@.ledgers[j]).symbol != symbol@,
            found ==> pos < n && store@.ledgers[pos as int].symbol == symbol@ && forall|j: int|
                0 <= j < pos ==> (#[trigger] store@.ledgers[j]).symbol != symbol@,
        decreases n - pos + (if found {
            0int
        } else {
            1int
        }),
    {
        if store.ledgers[pos].symbol == symbol {
            found = true;
        } else {
            pos += 1;
        }
    }
    proof {
        lemma_find_ledger_props(store@.ledgers, symbol@);
    }
    let mut result: Vec<Prediction> = Vec::new();
    if !found {
        proof {
            assert(find_ledger(store@.ledgers, symbol@) == -1);
            assert(result.deep_view() =~= predictions_for(store@.ledgers, symbol@));
        }
        return result;
    }
    proof {
        let ls = store@.ledgers;
        let f = find_ledger(ls, symbol@);
        assert(ls[pos as int].symbol == symbol@);
        if f < pos as int {
            assert(ls[f].symbol == symbol@);
        }
        if f > pos as int {
            assert(ls[pos as int].symbol != symbol@);
        }
        assert(f == pos as int);
    }
    let ghost preds = store@.ledgers[pos as int].predictions;
    let m = store.ledgers[pos].predictions.len();
    let mut k: usize = 0;
    while k < m
        invariant
            pos < store.ledgers.len(),
            preds == store@.ledgers[pos as int].predictions,
            m == store.ledgers@[pos as int].predictions@.len(),
            m == preds.len(),
            k <= m,
            result@.len() == k,
            forall|j: int| 0 <= j < k ==> (#[trigger] result@[j])@ == preds[j],
        decreases m - k,
    {
        result.push(clone_prediction(&store.ledgers[pos].predictions[k]));
        k += 1;
    }
    proof {
        assert forall|j: int| 0 <= j < m implies result.deep_view()[j] == preds[j] by {}
        assert(result.deep_view() =~= preds);
    }
    result
}

} // verus!
