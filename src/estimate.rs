//! Estimates of whole assets and requests: linking every item, pricing it, and laying out the years.

use vstd::prelude::*;
use crate::combinators::{errs, lemma_all_ok, lemma_errs_from, oks, partition_results};
use crate::cost_calculator::{
    plan_reads, prices_ok, pricing_error, target_code, CostEstimateOptions, CostItemPlan,
};
use crate::error::{
    combine_errors, combined, combined_all, lemma_combine_missing_union, CostEstimateError,
    ErrorView,
};
use crate::library::{
    found_at, has_item, is_last_with_id, item_at, listed, CostLibrary, CostReferenceItem,
};
use crate::linked_cost_item::{missing_names, names_exactly, resolved, LinkedCostItem};
use crate::request::{AssetParameters, CostItemParameters};
use crate::timeline::{range_len, slot, YearSlot};

verus! {

/// The reference id of `ci` is unknown to the library.
pub open spec fn unknown_ref(lib: CostLibrary, ci: CostItemParameters) -> bool {
    !has_item(lib, ci.cost_item_ref@)
}

/// The parameters that `ci` lacks for the item it refers to.
pub open spec fn missing_of(lib: CostLibrary, ci: CostItemParameters) -> Set<Seq<char>> {
    let p = resolved(lib, ci.cost_item_ref@);
    missing_names(item_at(lib, p.0, p.1), ci.parameters@)
}

/// Linking `ci` fails.
pub open spec fn link_fails(lib: CostLibrary, ci: CostItemParameters) -> bool {
    unknown_ref(lib, ci) || !missing_of(lib, ci).is_empty()
}

/// `l` is what linking `ci` yields.
pub open spec fn linked_from(lib: CostLibrary, ci: CostItemParameters, l: LinkedCostItem) -> bool {
    let p = resolved(lib, ci.cost_item_ref@);
    &&& l.id@ == ci.id@
    &&& l.quantity == ci.quantity
    &&& l.module_index == p.0
    &&& l.item_index == p.1
    &&& is_last_with_id(lib, ci.cost_item_ref@, p.0, p.1)
}

/// The last of the first `i` items whose reference id is unknown.
pub open spec fn last_unknown(lib: CostLibrary, items: Seq<CostItemParameters>, i: int) -> Option<
    int,
>
    decreases i,
{
    if i <= 0 {
        None
    } else if unknown_ref(lib, items[i - 1]) {
        Some(i - 1)
    } else {
        last_unknown(lib, items, i - 1)
    }
}

/// One of the first `i` items, with id `id`, lacks parameter `n`.
pub open spec fn lacks(
    lib: CostLibrary,
    items: Seq<CostItemParameters>,
    i: int,
    id: Seq<char>,
    n: Seq<char>,
) -> bool {
    exists|k: int|
        0 <= k < i && (#[trigger] items[k]).id@ == id && !unknown_ref(lib, items[k])
            && missing_of(lib, items[k]).contains(n)
}

/// `e` is the combined error of linking the first `i` items: the id of the
/// last unknown reference where there is one, else every missing parameter.
pub open spec fn link_error(
    lib: CostLibrary,
    items: Seq<CostItemParameters>,
    i: int,
    e: ErrorView,
) -> bool {
    match last_unknown(lib, items, i) {
        Some(k) => e == ErrorView::UnknownCostItem(items[k].id@),
        None => e matches ErrorView::MissingProperties(s) && forall|id: Seq<char>, n: Seq<char>|
            #[trigger] s.contains((id, n)) <==> lacks(lib, items, i, id, n),
    }
}

proof fn lemma_last_unknown_some(lib: CostLibrary, items: Seq<CostItemParameters>, i: int)
    requires
        last_unknown(lib, items, i) is Some,
    ensures
        0 <= last_unknown(lib, items, i)->Some_0 < i,
        unknown_ref(lib, items[last_unknown(lib, items, i)->Some_0]),
    decreases i,
{
    if i > 0 && !unknown_ref(lib, items[i - 1]) {
        lemma_last_unknown_some(lib, items, i - 1);
    }
}

/// The error view that linking a failing `ci` yields, as `find_and_link`
/// states it.
pub open spec fn item_link_error(lib: CostLibrary, ci: CostItemParameters, e: ErrorView) -> bool {
    if unknown_ref(lib, ci) {
        e == ErrorView::UnknownCostItem(ci.id@)
    } else {
        e matches ErrorView::MissingProperties(s) && names_exactly(s, ci.id@, missing_of(lib, ci))
    }
}

/// An item that links leaves the combined error of those before it as it is.
proof fn lemma_link_error_keep(
    lib: CostLibrary,
    items: Seq<CostItemParameters>,
    i: int,
    e: ErrorView,
)
    requires
        0 <= i < items.len(),
        !link_fails(lib, items[i]),
        link_error(lib, items, i, e),
    ensures
        link_error(lib, items, i + 1, e),
{
    assert(last_unknown(lib, items, i + 1) == last_unknown(lib, items, i));
    if last_unknown(lib, items, i) is None {
        let s = e->MissingProperties_0;
        assert forall|id: Seq<char>, n: Seq<char>|
            #[trigger] s.contains((id, n)) <==> lacks(lib, items, i + 1, id, n) by {
            assert(s.contains((id, n)) == lacks(lib, items, i, id, n));
            if lacks(lib, items, i + 1, id, n) {
                let k = choose|k: int|
                    0 <= k < i + 1 && (#[trigger] items[k]).id@ == id && !unknown_ref(lib, items[k])
                        && missing_of(lib, items[k]).contains(n);
                assert(k != i);
            }
        }
    }
}

/// An item that fails to link folds its error into those before it.
proof fn lemma_link_error_step(
    lib: CostLibrary,
    items: Seq<CostItemParameters>,
    i: int,
    acc: Option<ErrorView>,
    ev: ErrorView,
)
    requires
        0 <= i < items.len(),
        acc is None <==> forall|k: int| 0 <= k < i ==> !link_fails(lib, #[trigger] items[k]),
        acc matches Some(a) ==> link_error(lib, items, i, a),
        link_fails(lib, items[i]),
        item_link_error(lib, items[i], ev),
    ensures
        link_error(
            lib,
            items,
            i + 1,
            match acc {
                None => ev,
                Some(a) => combined(a, ev),
            },
        ),
{
    let t = items[i];
    if unknown_ref(lib, t) {
        assert(last_unknown(lib, items, i + 1) == Some(i));
        return;
    }
    assert(last_unknown(lib, items, i + 1) == last_unknown(lib, items, i));
    if last_unknown(lib, items, i) is Some {
        lemma_last_unknown_some(lib, items, i);
        let k = last_unknown(lib, items, i)->Some_0;
        assert(link_fails(lib, items[k]));
        return;
    }
    let s = ev->MissingProperties_0;
    // What the first `i + 1` items lack: what the first `i` lack, and what `t` lacks.
    assert forall|id: Seq<char>, n: Seq<char>|
        #[trigger] lacks(lib, items, i + 1, id, n) <==> lacks(lib, items, i, id, n) || (id
            == t.id@ && missing_of(lib, t).contains(n)) by {
        if lacks(lib, items, i + 1, id, n) {
            let k = choose|k: int|
                0 <= k < i + 1 && (#[trigger] items[k]).id@ == id && !unknown_ref(lib, items[k])
                    && missing_of(lib, items[k]).contains(n);
            if k < i {
                assert(lacks(lib, items, i, id, n));
            }
        }
        if lacks(lib, items, i, id, n) {
            let k = choose|k: int|
                0 <= k < i && (#[trigger] items[k]).id@ == id && !unknown_ref(lib, items[k])
                    && missing_of(lib, items[k]).contains(n);
            assert(items[k].id@ == id);
        }
        if id == t.id@ && missing_of(lib, t).contains(n) {
            assert(items[i].id@ == id);
        }
    }
    assert forall|id: Seq<char>, n: Seq<char>|
        #[trigger] s.contains((id, n)) <==> (id == t.id@ && missing_of(lib, t).contains(n)) by {
        if missing_of(lib, t).contains(n) && id == t.id@ {
            let a = choose|a: int| 0 <= a < s.len() && (#[trigger] s[a]) == (t.id@, n);
            assert(s[a] == (id, n));
        }
        if s.contains((id, n)) {
            let a = choose|a: int| 0 <= a < s.len() && s[a] == (id, n);
            assert(s[a].0 == t.id@);
        }
    }
    match acc {
        None => {
            assert forall|id: Seq<char>, n: Seq<char>|
                #[trigger] s.contains((id, n)) <==> lacks(lib, items, i + 1, id, n) by {
                if lacks(lib, items, i, id, n) {
                    let k = choose|k: int|
                        0 <= k < i && (#[trigger] items[k]).id@ == id && !unknown_ref(
                            lib,
                            items[k],
                        ) && missing_of(lib, items[k]).contains(n);
                    assert(!link_fails(lib, items[k]));
                }
            }
        },
        Some(a) => {
            let s0 = a->MissingProperties_0;
            lemma_combine_missing_union(s0, s);
            assert forall|id: Seq<char>, n: Seq<char>|
                #[trigger] (s0 + s).contains((id, n)) <==> lacks(lib, items, i + 1, id, n) by {
                assert(s0.contains((id, n)) == lacks(lib, items, i, id, n));
                assert(s.contains((id, n)) == (id == t.id@ && missing_of(lib, t).contains(n)));
            }
        },
    }
}

/// Links every cost item of an asset. Where any fails, no item is linked and
/// the errors of all that failed are combined in order.
pub fn link_cost_items(cost_library: &CostLibrary, items: &Vec<CostItemParameters>) -> (r: Result<
    Vec<LinkedCostItem>,
    CostEstimateError,
>)
    ensures
        r is Ok <==> forall|k: int| 0 <= k < items@.len() ==> !link_fails(*cost_library, #[trigger] items@[k]),
        r matches Ok(v) ==> v@.len() == items@.len() && forall|k: int|
            0 <= k < v@.len() ==> linked_from(*cost_library, items@[k], #[trigger] v@[k]),
        r matches Err(e) ==> link_error(*cost_library, items@, items@.len() as int, e@),
{
    let ghost lib = *cost_library;
    let mut linked: Vec<LinkedCostItem> = Vec::new();
    let mut error: Option<CostEstimateError> = None;
    let mut i: usize = 0;
    while i < items.len()
        invariant
            lib == *cost_library,
            i <= items@.len(),
            error is None <==> forall|k: int| 0 <= k < i ==> !link_fails(lib, #[trigger] items@[k]),
            error is None ==> linked@.len() == i && forall|k: int|
                0 <= k < i ==> linked_from(lib, items@[k], #[trigger] linked@[k]),
            error matches Some(e) ==> link_error(lib, items@, i as int, e@),
        decreases items@.len() - i,
    {
        match LinkedCostItem::find_and_link(&items[i], cost_library) {
            Ok(l) => {
                proof {
                    if error is Some {
                        lemma_link_error_keep(lib, items@, i as int, error->Some_0@);
                    }
                }
                if error.is_none() {
                    linked.push(l);
                }
            },
            Err(e) => {
                let ghost acc = if error is Some {
                    Some(error->Some_0@)
                } else {
                    None
                };
                proof {
                    lemma_link_error_step(lib, items@, i as int, acc, e@);
                }
                error = match error {
                    None => Some(e),
                    Some(a) => Some(a.combine(e)),
                };
            },
        }
        i = i + 1;
    }
    match error {
        None => Ok(linked),
        Some(e) => Err(e),
    }
}

/// The item that `ci` links to.
pub open spec fn target_of(lib: CostLibrary, ci: CostItemParameters) -> CostReferenceItem {
    let p = resolved(lib, ci.cost_item_ref@);
    item_at(lib, p.0, p.1)
}

/// `plan` is the plan of the linked, priced item `ci`.
pub open spec fn item_plan(lib: CostLibrary, ci: CostItemParameters, plan: CostItemPlan) -> bool {
    let r = resolved(lib, ci.cost_item_ref@);
    &&& plan.id@ == ci.id@
    &&& plan.quantity == ci.quantity
    &&& plan.module_index == r.0
    &&& plan.item_index == r.1
    &&& plan_reads(lib, target_of(lib, ci), ci.parameters@, plan)
}

/// What estimating one asset reads: a plan for each cost item, in request
/// order, and the asset's years with the periods each falls in.
#[derive(Debug, Clone)]
pub struct AssetCostPlan {
    pub id: String,
    pub cost_items: Vec<CostItemPlan>,
    /// Every year from the start of construction to the end of
    /// decommissioning.
    pub years: Vec<YearSlot>,
    /// The number of years capital cost is spread over.
    pub construction_years: usize,
    /// The number of years decommissioning cost is spread over.
    pub decommissioning_years: usize,
}

/// `p` is the plan of asset `a`, all of whose items link and can be priced.
pub open spec fn asset_plan(lib: CostLibrary, a: AssetParameters, p: AssetCostPlan) -> bool {
    let t = a.timeline;
    &&& p.id@ == a.id@
    &&& p.cost_items@.len() == a.cost_items@.len()
    &&& forall|k: int|
        0 <= k < p.cost_items@.len() ==> item_plan(lib, a.cost_items@[k], #[trigger] p.cost_items@[k])
    &&& p.years@.len() == range_len(t.construction_start, t.decommissioning_finish)
    &&& forall|i: int| 0 <= i < p.years@.len() ==> #[trigger] p.years@[i] == slot(t, i)
    &&& p.construction_years == range_len(t.construction_start, t.construction_finish)
    &&& p.decommissioning_years == range_len(t.decommissioning_start, t.decommissioning_finish)
}

/// Estimating asset `a` fails with `e`: where some item fails to link, with
/// the combined linking error; else with the pricing error of the first item
/// that cannot be priced.
pub open spec fn asset_error(lib: CostLibrary, a: AssetParameters, e: ErrorView) -> bool {
    let items = a.cost_items@;
    if exists|k: int| 0 <= k < items.len() && link_fails(lib, #[trigger] items[k]) {
        link_error(lib, items, items.len() as int, e)
    } else {
        exists|k: int|
            0 <= k < items.len() && !prices_ok(lib, target_of(lib, #[trigger] items[k])) && (forall|
                j: int,
            |
                0 <= j < k ==> prices_ok(lib, target_of(lib, #[trigger] items[j])))
                && e == pricing_error(lib, target_of(lib, items[k]))
    }
}

/// Estimating asset `a` succeeds.
pub open spec fn asset_ok(lib: CostLibrary, a: AssetParameters) -> bool {
    forall|k: int|
        0 <= k < a.cost_items@.len() ==> !link_fails(lib, #[trigger] a.cost_items@[k]) && prices_ok(
            lib,
            target_of(lib, a.cost_items@[k]),
        )
}

/// Links and prices every cost item of an asset and lays out its years.
pub fn estimate_asset_cost(cost_library: &CostLibrary, asset: &AssetParameters) -> (r: Result<
    AssetCostPlan,
    CostEstimateError,
>)
    ensures
        r is Ok <==> asset_ok(*cost_library, *asset),
        r matches Ok(p) ==> asset_plan(*cost_library, *asset, p),
        r matches Err(e) ==> asset_error(*cost_library, *asset, e@),
{
    let ghost lib = *cost_library;
    let ghost items = asset.cost_items@;
    let linked = match link_cost_items(cost_library, &asset.cost_items) {
        Ok(v) => v,
        Err(e) => {
            proof {
                let k = choose|k: int| 0 <= k < items.len() && link_fails(lib, #[trigger] items[k]);
                assert(!asset_ok(lib, *asset)) by {
                    assert(link_fails(lib, items[k]));
                }
            }
            return Err(e);
        },
    };
    assert(!exists|k: int| 0 <= k < items.len() && link_fails(lib, #[trigger] items[k]));
    let mut plans: Vec<CostItemPlan> = Vec::new();
    let mut k: usize = 0;
    while k < linked.len()
        invariant
            lib == *cost_library,
            items == asset.cost_items@,
            linked@.len() == items.len(),
            forall|j: int| 0 <= j < items.len() ==> !link_fails(lib, #[trigger] items[j]),
            forall|j: int| 0 <= j < linked@.len() ==> linked_from(lib, items[j], #[trigger] linked@[j]),
            k <= linked@.len(),
            plans@.len() == k,
            forall|j: int| 0 <= j < k ==> prices_ok(lib, target_of(lib, #[trigger] items[j])),
            forall|j: int| 0 <= j < k ==> item_plan(lib, items[j], #[trigger] plans@[j]),
        decreases linked@.len() - k,
    {
        let ghost ci = items[k as int];
        proof {
            assert(linked_from(lib, ci, linked@[k as int]));
            assert(!link_fails(lib, ci));
        }
        match linked[k].get_costs(&asset.cost_items[k], cost_library) {
            Ok(plan) => plans.push(plan),
            Err(e) => {
                proof {
                    assert(!asset_ok(lib, *asset)) by {
                        assert(!prices_ok(lib, target_of(lib, items[k as int])));
                    }
                    assert(!prices_ok(lib, target_of(lib, items[k as int])) && (forall|j: int|
                        0 <= j < k ==> prices_ok(lib, target_of(lib, #[trigger] items[j]))));
                }
                return Err(e);
            },
        }
        k = k + 1;
    }
    Ok(
        AssetCostPlan {
            id: asset.id.clone(),
            cost_items: plans,
            years: asset.timeline.schedule(),
            construction_years: asset.timeline.construction_years(),
            decommissioning_years: asset.timeline.decommissioning_years(),
        },
    )
}

/// The assets of `s` whose estimate fails, in order.
pub open spec fn failing(lib: CostLibrary, s: Seq<AssetParameters>) -> Seq<AssetParameters>
    decreases s.len(),
{
    if s.len() == 0 {
        Seq::empty()
    } else if asset_ok(lib, s.last()) {
        failing(lib, s.drop_last())
    } else {
        failing(lib, s.drop_last()).push(s.last())
    }
}

proof fn lemma_failing_errors(
    lib: CostLibrary,
    assets: Seq<AssetParameters>,
    rs: Seq<Result<AssetCostPlan, CostEstimateError>>,
)
    requires
        rs.len() == assets.len(),
        forall|k: int|
            0 <= k < rs.len() ==> {
                let r = #[trigger] rs[k];
                &&& r is Ok <==> asset_ok(lib, assets[k])
                &&& r matches Err(e) ==> asset_error(lib, assets[k], e@)
            },
    ensures
        errs(rs).len() == failing(lib, assets).len(),
        forall|j: int|
            0 <= j < errs(rs).len() ==> asset_error(
                lib,
                failing(lib, assets)[j],
                (#[trigger] errs(rs)[j])@,
            ),
    decreases rs.len(),
{
    if rs.len() > 0 {
        let n = rs.len() - 1;
        assert(rs.drop_last().len() == assets.drop_last().len());
        assert forall|k: int| 0 <= k < n implies #[trigger] rs.drop_last()[k] == rs[k] && assets.drop_last()[k] == assets[k] by {}
        lemma_failing_errors(lib, assets.drop_last(), rs.drop_last());
        assert(rs[n] == rs.last());
        assert(assets[n] == assets.last());
    }
}

/// What a whole estimate reads: the target currency's rate, and a plan for
/// each asset, in request order.
#[derive(Debug, Clone)]
pub struct CostEstimatePlan {
    pub target_currency_rate: usize,
    pub assets: Vec<AssetCostPlan>,
}

/// `r` is the outcome of estimating `assets` against `lib` with `options`:
/// an unknown target currency fails first; otherwise every asset succeeds
/// and is planned, or the errors of the failing assets, in order, combine
/// into the one returned.
pub open spec fn estimate_outcome(
    lib: CostLibrary,
    assets: Seq<AssetParameters>,
    options: CostEstimateOptions,
    r: Result<CostEstimatePlan, CostEstimateError>,
) -> bool {
    let target = target_code(options, lib);
    let currencies = lib.currency_conversion.currencies@;
    &&& !listed(currencies, target) ==> (r matches Err(e) && e@
        == ErrorView::UnknownCurrencyConversion(target))
    &&& listed(currencies, target) ==> (r is Ok <==> forall|k: int|
        0 <= k < assets.len() ==> asset_ok(lib, #[trigger] assets[k]))
    &&& r matches Ok(p) ==> {
        &&& found_at(currencies, target, Some(p.target_currency_rate))
        &&& p.assets@.len() == assets.len()
        &&& forall|k: int|
            0 <= k < assets.len() ==> asset_plan(lib, assets[k], #[trigger] p.assets@[k])
    }
    &&& listed(currencies, target) && r is Err ==> exists|es: Seq<ErrorView>|
        {
            let bad = failing(lib, assets);
            &&& es.len() == bad.len()
            &&& Some(r->Err_0@) == #[trigger] combined_all(es)
            &&& forall|j: int| 0 <= j < es.len() ==> asset_error(lib, bad[j], #[trigger] es[j])
        }
}

/// Estimates every asset of a request. All assets succeed or the estimate
/// fails with their errors combined.
pub fn estimate_cost(
    cost_library: &CostLibrary,
    assets: &Vec<AssetParameters>,
    options: &CostEstimateOptions,
) -> (r: Result<CostEstimatePlan, CostEstimateError>)
    ensures
        estimate_outcome(*cost_library, assets@, *options, r),
{
    let internal = match options.convert_to_internal(cost_library) {
        Ok(o) => o,
        Err(e) => return Err(e),
    };
    let ghost lib = *cost_library;
    let mut results: Vec<Result<AssetCostPlan, CostEstimateError>> = Vec::new();
    let mut i: usize = 0;
    while i < assets.len()
        invariant
            lib == *cost_library,
            i <= assets@.len(),
            results@.len() == i,
            forall|k: int|
                0 <= k < i ==> {
                    let r = #[trigger] results@[k];
                    &&& r is Ok <==> asset_ok(lib, assets@[k])
                    &&& r matches Ok(p) ==> asset_plan(lib, assets@[k], p)
                    &&& r matches Err(e) ==> asset_error(lib, assets@[k], e@)
                },
        decreases assets@.len() - i,
    {
        results.push(estimate_asset_cost(cost_library, &assets[i]));
        i = i + 1;
    }
    let ghost rs = results@;
    let (plans, errors) = partition_results(results);
    proof {
        lemma_errs_from(rs);
    }
    if errors.len() > 0 {
        let ghost views = errors@.map_values(|e: CostEstimateError| e@);
        let combined_error = combine_errors(errors);
        proof {
            lemma_failing_errors(lib, assets@, rs);
            assert forall|j: int| 0 <= j < views.len() implies asset_error(
                lib,
                failing(lib, assets@)[j],
                #[trigger] views[j],
            ) by {
                assert(views[j] == errs(rs)[j]@);
            }
            let k = choose|k: int| 0 <= k < rs.len() && !((#[trigger] rs[k]) is Ok);
            assert(!asset_ok(lib, assets@[k]));
        }
        return Err(combined_error.unwrap());
    }
    proof {
        lemma_all_ok(rs);
        assert forall|k: int| 0 <= k < assets@.len() implies asset_ok(lib, #[trigger] assets@[k]) by {
            assert(rs[k] is Ok);
        }
        assert forall|k: int| 0 <= k < assets@.len() implies asset_plan(lib, assets@[k], #[trigger] plans@[k]) by {
            assert(rs[k] == Ok::<AssetCostPlan, CostEstimateError>(oks(rs)[k]));
        }
    }
    Ok(CostEstimatePlan { target_currency_rate: internal.target_currency_rate, assets: plans })
}

} // verus!
