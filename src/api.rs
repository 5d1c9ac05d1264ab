//! The queries that the service answers, over the registry of library
//! versions: the currencies of a library, and an estimate.

use vstd::prelude::*;
use crate::cost_calculator::CostEstimateOptions;
use crate::error::CostEstimateError;
use crate::estimate::{estimate_cost, estimate_outcome, CostEstimatePlan};
use crate::library::{found_at, get_currencies, listed, texts, CostLibraries, CostLibraryNotFoundError};
use crate::request::CostEstimateRequest;

verus! {

/// The answer to a request for a library's currencies.
#[derive(Debug, Clone)]
pub enum ListLibraryCurrenciesResponse {
    Currencies(Vec<String>),
    CostLibraryNotFound(CostLibraryNotFoundError),
}

/// The answer to a request for an estimate.
#[derive(Debug, Clone)]
pub enum CostEstimateResponse {
    Estimate(CostEstimatePlan),
    DataError(CostEstimateError),
    CostLibraryNotFound(CostLibraryNotFoundError),
}

impl CostLibraries {
    /// The currencies of the library registered under `library_id`.
    pub fn list_library_currencies(&self, library_id: &String) -> (r:
        ListLibraryCurrenciesResponse)
        requires
            self.wf(),
        ensures
            !listed(self.ids@, library_id@) ==> (r matches
                ListLibraryCurrenciesResponse::CostLibraryNotFound(e) && e.library_id@
                == library_id@),
            listed(self.ids@, library_id@) ==> (r matches ListLibraryCurrenciesResponse::Currencies(c)
                && exists|i: int|
                0 <= i && found_at(self.ids@, library_id@, Some(i as usize)) && texts(c@)
                    == texts(#[trigger] self.libraries@[i].currency_conversion.currencies@)),
    {
        match self.get(library_id) {
            Ok(library) => ListLibraryCurrenciesResponse::Currencies(get_currencies(library)),
            Err(e) => ListLibraryCurrenciesResponse::CostLibraryNotFound(e),
        }
    }

    /// Estimates a request against the library registered under
    /// `library_id`, priced in `target_currency_code` or else in the
    /// library's base currency.
    pub fn create_cost_estimate(
        &self,
        request: &CostEstimateRequest,
        library_id: &String,
        target_currency_code: Option<String>,
    ) -> (r: CostEstimateResponse)
        requires
            self.wf(),
        ensures
            !listed(self.ids@, library_id@) ==> (r matches CostEstimateResponse::CostLibraryNotFound(
                e,
            ) && e.library_id@ == library_id@),
            listed(self.ids@, library_id@) ==> exists|i: int|
                {
                    let lib = #[trigger] self.libraries@[i];
                    let options = CostEstimateOptions { target_currency: target_currency_code };
                    &&& 0 <= i && found_at(self.ids@, library_id@, Some(i as usize))
                    &&& match r {
                        CostEstimateResponse::Estimate(p) => estimate_outcome(
                            lib,
                            request.assets@,
                            options,
                            Ok(p),
                        ),
                        CostEstimateResponse::DataError(e) => estimate_outcome(
                            lib,
                            request.assets@,
                            options,
                            Err(e),
                        ),
                        CostEstimateResponse::CostLibraryNotFound(_) => false,
                    }
                },
    {
        let library = match self.get(library_id) {
            Ok(library) => library,
            Err(e) => return CostEstimateResponse::CostLibraryNotFound(e),
        };
        let options = CostEstimateOptions { target_currency: target_currency_code };
        match estimate_cost(library, &request.assets, &options) {
            Ok(plan) => CostEstimateResponse::Estimate(plan),
            Err(e) => CostEstimateResponse::DataError(e),
        }
    }
}

} // verus!
