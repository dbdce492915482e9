use vstd::prelude::*;

use crate::model::PriceModel;

verus! {

/// One `{symbol, price}` entry, both as submitted and as aggregated.
#[derive(Clone, Debug, PartialEq)]
pub struct Price {
    pub symbol: String,
    pub price: u128,
}

impl View for Price {
    type V = PriceModel;

    open spec fn view(&self) -> PriceModel {
        PriceModel { symbol: self.symbol@, price: self.price }
    }
}

impl DeepView for Price {
    type V = PriceModel;

    open spec fn deep_view(&self) -> PriceModel {
        self@
    }
}

/// Initialization takes no parameters beyond the caller's identity.
#[derive(Clone, Debug, PartialEq)]
pub struct InitMsg {}

/// The mutating operations.
#[derive(Clone, Debug, PartialEq)]
pub enum HandleMsg {
    PredictPrices {
        /// The prices to ingest.
        prices: Vec<Price>,
        /// Authenticates the submission.
        validator_key: String,
    },
    Register {
        /// The submission key to bind; registration fails without one.
        validator_key: Option<String>,
    },
}

/// The read-only operations.
#[derive(Clone, Debug, PartialEq)]
pub enum QueryMsg {
    GetPrice { symbols: Vec<String> },
    GetSymbols {},
    GetValidators {},
}

#[derive(Clone, Debug, PartialEq)]
pub struct QueryValidatorsResponse {
    pub validators: Vec<String>,
}

#[derive(Clone, Debug, PartialEq)]
pub struct QuerySymbolsResponse {
    pub symbols: Vec<String>,
}

#[derive(Clone, Debug, PartialEq)]
pub struct QueryPricesResponse {
    pub prices: Vec<Price>,
}

/// The answer to one read-only query.
#[derive(Clone, Debug, PartialEq)]
pub enum QueryAnswer {
    Prices(QueryPricesResponse),
    Symbols(QuerySymbolsResponse),
    Validators(QueryValidatorsResponse),
}

/// What the host hands the contract about the current call: the calling
/// identity and the current block time.
#[derive(Clone, Debug, PartialEq)]
pub struct Env {
    pub sender: String,
    pub time: u64,
}

} // verus!
