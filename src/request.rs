//! What a caller asks an estimate for.

use vstd::prelude::*;
use crate::timeline::Timeline;

verus! {

/// One requested line item: which reference item it prices, how many of it,
/// and the names of the parameters the caller supplied. The parameters'
/// values stay with the caller, in the same order.
#[derive(Debug, Clone)]
pub struct CostItemParameters {
    pub id: String,
    /// Id of the reference item in the library.
    pub cost_item_ref: String,
    pub quantity: u32,
    /// Names of the supplied parameters.
    pub parameters: Vec<String>,
}

/// One asset of a request, as far as the estimate's decisions read it.
#[derive(Debug, Clone)]
pub struct AssetParameters {
    pub id: String,
    pub timeline: Timeline,
    pub cost_items: Vec<CostItemParameters>,
}

/// A request for estimates of several assets.
#[derive(Debug, Clone)]
pub struct CostEstimateRequest {
    pub assets: Vec<AssetParameters>,
}

} // verus!
