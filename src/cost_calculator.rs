//! What pricing one cost item reads: the currency rate, the inflation factor, the formula's parameters and the variable operating-cost contributions.

use vstd::prelude::*;
use crate::error::{
    CostEstimateError, CostEstimateErrorUnknownCurrencyConversion,
    CostEstimateErrorUnknownInflationFactor, ErrorView,
};
use crate::library::{
    effective_cost_type, found_at, item_at, listed, located, position_of, texts, Cost,
    CostLibrary, CostReferenceItem, CostReferenceItemCostType,
};
use crate::linked_cost_item::LinkedCostItem;
use crate::request::CostItemParameters;

verus! {

/// The decimal digit for `d`, which is below ten.
pub open spec fn digit(d: nat) -> char {
    if d == 0 { '0' }
    else if d == 1 { '1' }
    else if d == 2 { '2' }
    else if d == 3 { '3' }
    else if d == 4 { '4' }
    else if d == 5 { '5' }
    else if d == 6 { '6' }
    else if d == 7 { '7' }
    else if d == 8 { '8' }
    else { '9' }
}

/// `n` written in decimal, without sign or leading zeros.
pub open spec fn decimal(n: nat) -> Seq<char>
    decreases n,
{
    if n < 10 {
        seq![digit(n)]
    } else {
        decimal(n / 10).push(digit(n % 10))
    }
}

/// The key under which the inflation table holds a year.
/// Relies on `u32::to_string` (through `Display`), which writes the number in
/// decimal.
#[verifier::external_body]
pub(crate) fn year_key(year: u32) -> (r: String)
    ensures
        r@ == decimal(year as nat),
{
    year.to_string()
}

/// Where to find the conversion rate of `currency`.
pub fn currency_rate_index(cost_library: &CostLibrary, currency: &String) -> (r: Result<
    usize,
    CostEstimateError,
>)
    ensures
        r is Err <==> !listed(cost_library.currency_conversion.currencies@, currency@),
        r matches Ok(i) ==> found_at(cost_library.currency_conversion.currencies@, currency@, Some(i)),
        r matches Err(e) ==> e@ == ErrorView::UnknownCurrencyConversion(currency@),
{
    match position_of(&cost_library.currency_conversion.currencies, currency) {
        Some(i) => Ok(i),
        None => Err(
            CostEstimateError::UnknownCurrencyConversion(
                CostEstimateErrorUnknownCurrencyConversion { currency: currency.clone() },
            ),
        ),
    }
}

/// Where to find the inflation factor of the year keyed `year`.
pub fn inflation_factor_index(cost_library: &CostLibrary, year: &String) -> (r: Result<
    usize,
    CostEstimateError,
>)
    ensures
        r is Err <==> !listed(cost_library.inflation.years@, year@),
        r matches Ok(i) ==> found_at(cost_library.inflation.years@, year@, Some(i)),
        r matches Err(e) ==> e@ == ErrorView::UnknownInflationFactor(year@),
{
    match position_of(&cost_library.inflation.years, year) {
        Some(i) => Ok(i),
        None => Err(
            CostEstimateError::UnknownInflationFactor(
                CostEstimateErrorUnknownInflationFactor { year: year.clone() },
            ),
        ),
    }
}

/// The currency an estimate is priced in; none means the library's base
/// currency.
#[derive(Debug, Clone)]
pub struct CostEstimateOptions {
    pub target_currency: Option<String>,
}

/// The target currency, resolved to the position of its rate.
#[derive(Debug, Clone, Copy, PartialEq, Eq, Structural)]
pub struct CostEstimateOptionsInternal {
    pub target_currency_rate: usize,
}

/// The code of the currency that `options` asks for.
pub open spec fn target_code(options: CostEstimateOptions, lib: CostLibrary) -> Seq<char> {
    match options.target_currency {
        Some(c) => c@,
        None => lib.currency_conversion.base_currency@,
    }
}

impl CostEstimateOptions {
    /// Resolves the target currency in the library's rate table.
    pub fn convert_to_internal(&self, cost_library: &CostLibrary) -> (r: Result<
        CostEstimateOptionsInternal,
        CostEstimateError,
    >)
        ensures
            r is Err <==> !listed(
                cost_library.currency_conversion.currencies@,
                target_code(*self, *cost_library),
            ),
            r matches Ok(o) ==> found_at(
                cost_library.currency_conversion.currencies@,
                target_code(*self, *cost_library),
                Some(o.target_currency_rate),
            ),
            r matches Err(e) ==> e@ == ErrorView::UnknownCurrencyConversion(
                target_code(*self, *cost_library),
            ),
    {
        let code = match &self.target_currency {
            Some(c) => c,
            None => &cost_library.currency_conversion.base_currency,
        };
        match currency_rate_index(cost_library, code) {
            Ok(i) => Ok(CostEstimateOptionsInternal { target_currency_rate: i }),
            Err(e) => Err(e),
        }
    }
}

/// The names of the variable operating-cost categories, in the order in
/// which an estimate lists them.
pub open spec fn category_names() -> Seq<Seq<char>> {
    seq![
        "Electrical power"@,
        "Cooling water (10degC temp rise)"@,
        "Natural gas"@,
        "Steam HP superheat, 600degC and 50bara"@,
        "Steam LP saturated, 160degC and 6.2bara"@,
        "Catalysts and chemicals"@,
        "Equipment item rental"@,
        "Cost per tonne of CO2"@,
        "Tariff paid to storage reservoir owner"@,
    ]
}

/// The variable operating-cost categories, in order.
pub fn variable_opex_categories() -> (r: Vec<String>)
    ensures
        texts(r@) == category_names(),
{
    proof {
        reveal_strlit("Electrical power");
        reveal_strlit("Cooling water (10degC temp rise)");
        reveal_strlit("Natural gas");
        reveal_strlit("Steam HP superheat, 600degC and 50bara");
        reveal_strlit("Steam LP saturated, 160degC and 6.2bara");
        reveal_strlit("Catalysts and chemicals");
        reveal_strlit("Equipment item rental");
        reveal_strlit("Cost per tonne of CO2");
        reveal_strlit("Tariff paid to storage reservoir owner");
    }
    let r = vec![
        "Electrical power".to_owned(),
        "Cooling water (10degC temp rise)".to_owned(),
        "Natural gas".to_owned(),
        "Steam HP superheat, 600degC and 50bara".to_owned(),
        "Steam LP saturated, 160degC and 6.2bara".to_owned(),
        "Catalysts and chemicals".to_owned(),
        "Equipment item rental".to_owned(),
        "Cost per tonne of CO2".to_owned(),
        "Tariff paid to storage reservoir owner".to_owned(),
    ];
    assert(texts(r@) =~= category_names());
    r
}

/// The parameter that each term of an item's capital formula reads: one per
/// scaling factor of a linear formula, one per part of a polynomial (none
/// for a constant part).
pub open spec fn formula_names(item: CostReferenceItem) -> Seq<Option<Seq<char>>> {
    match item.cost {
        Cost::Linear => item.scaling_factors@.map_values(|s: String| Some(s@)),
        Cost::Polynomial { dimensions } => dimensions@.map_values(
            |d: Option<String>|
                match d {
                    Some(s) => Some(s@),
                    None => None,
                },
        ),
    }
}

/// What pricing one linked cost item reads from the library and from the
/// request, each named by its position: the caller holds the numbers there.
#[derive(Debug, Clone)]
pub struct CostItemPlan {
    /// The request-side id.
    pub id: String,
    pub quantity: u32,
    pub module_index: usize,
    pub item_index: usize,
    /// The category that the capital cost counts towards.
    pub cost_type: CostReferenceItemCostType,
    /// Position of the rate of the item's currency.
    pub currency_rate: usize,
    /// Position of the inflation factor of the item's price year.
    pub inflation_factor: usize,
    /// For each term of the capital formula, the supplied parameter it reads.
    pub formula_parameters: Vec<Option<usize>>,
    /// For each variable operating-cost category, the item's contribution
    /// and the supplied parameter of that name, where both exist.
    pub variable_opex: Vec<Option<(usize, usize)>>,
}

/// The library has a rate for the item's currency and an inflation factor
/// for its price year.
pub open spec fn prices_ok(lib: CostLibrary, item: CostReferenceItem) -> bool {
    listed(lib.currency_conversion.currencies@, item.currency@) && listed(
        lib.inflation.years@,
        decimal(item.year as nat),
    )
}

/// Why an item cannot be priced: its currency is checked first, then its
/// price year.
pub open spec fn pricing_error(lib: CostLibrary, item: CostReferenceItem) -> ErrorView {
    if !listed(lib.currency_conversion.currencies@, item.currency@) {
        ErrorView::UnknownCurrencyConversion(item.currency@)
    } else {
        ErrorView::UnknownInflationFactor(decimal(item.year as nat))
    }
}

/// `plan` reads, for `item` and the supplied parameter names, what pricing
/// needs: the cost type, the currency's rate, the year's inflation factor,
/// the formula's parameters and the variable operating-cost contributions.
pub open spec fn plan_reads(
    lib: CostLibrary,
    item: CostReferenceItem,
    supplied: Seq<String>,
    plan: CostItemPlan,
) -> bool {
    &&& plan.cost_type == effective_cost_type(item)
    &&& found_at(lib.currency_conversion.currencies@, item.currency@, Some(plan.currency_rate))
    &&& found_at(lib.inflation.years@, decimal(item.year as nat), Some(plan.inflation_factor))
    &&& parameter_positions(formula_names(item), supplied, plan.formula_parameters@)
    &&& opex_positions(item.variable_opex_contributions@, supplied, plan.variable_opex@)
}

/// `r` holds, for each of `wanted`, its first position in `supplied`.
pub open spec fn parameter_positions(
    wanted: Seq<Option<Seq<char>>>,
    supplied: Seq<String>,
    r: Seq<Option<usize>>,
) -> bool {
    &&& r.len() == wanted.len()
    &&& forall|j: int|
        0 <= j < r.len() ==> match #[trigger] wanted[j] {
            Some(n) => found_at(supplied, n, r[j]),
            None => r[j] is None,
        }
}

/// `r` holds, for each category, the first contribution of that name and the
/// first supplied parameter of that name, where both exist.
pub open spec fn opex_positions(
    contributions: Seq<String>,
    supplied: Seq<String>,
    r: Seq<Option<(usize, usize)>>,
) -> bool {
    &&& r.len() == category_names().len()
    &&& forall|c: int|
        0 <= c < r.len() ==> {
            let n = #[trigger] category_names()[c];
            &&& (r[c] is Some <==> listed(contributions, n) && listed(supplied, n))
            &&& r[c] matches Some(p) ==> found_at(contributions, n, Some(p.0)) && found_at(
                supplied,
                n,
                Some(p.1),
            )
        }
}

fn formula_parameter_positions(item: &CostReferenceItem, supplied: &Vec<String>) -> (r: Vec<
    Option<usize>,
>)
    ensures
        parameter_positions(formula_names(*item), supplied@, r@),
{
    let mut r: Vec<Option<usize>> = Vec::new();
    match &item.cost {
        Cost::Linear => {
            let names = &item.scaling_factors;
            let ghost wanted = formula_names(*item);
            let mut j: usize = 0;
            while j < names.len()
                invariant
                    j <= names@.len(),
                    wanted == names@.map_values(|s: String| Some(s@)),
                    r@.len() == j,
                    forall|i: int|
                        0 <= i < j ==> match #[trigger] wanted[i] {
                            Some(n) => found_at(supplied@, n, r@[i]),
                            None => r@[i] is None,
                        },
                decreases names@.len() - j,
            {
                let p = position_of(supplied, &names[j]);
                r.push(p);
                j = j + 1;
            }
        },
        Cost::Polynomial { dimensions } => {
            let ghost wanted = formula_names(*item);
            let mut j: usize = 0;
            while j < dimensions.len()
                invariant
                    j <= dimensions@.len(),
                    wanted == dimensions@.map_values(
                        |d: Option<String>|
                            match d {
                                Some(s) => Some(s@),
                                None => None,
                            },
                    ),
                    r@.len() == j,
                    forall|i: int|
                        0 <= i < j ==> match #[trigger] wanted[i] {
                            Some(n) => found_at(supplied@, n, r@[i]),
                            None => r@[i] is None,
                        },
                decreases dimensions@.len() - j,
            {
                let p = match &dimensions[j] {
                    Some(name) => position_of(supplied, name),
                    None => None,
                };
                r.push(p);
                j = j + 1;
            }
        },
    }
    r
}

fn variable_opex_positions(item: &CostReferenceItem, supplied: &Vec<String>) -> (r: Vec<
    Option<(usize, usize)>,
>)
    ensures
        opex_positions(item.variable_opex_contributions@, supplied@, r@),
{
    let categories = variable_opex_categories();
    let contributions = &item.variable_opex_contributions;
    let mut r: Vec<Option<(usize, usize)>> = Vec::new();
    let mut c: usize = 0;
    while c < categories.len()
        invariant
            texts(categories@) == category_names(),
            c <= categories@.len(),
            r@.len() == c,
            forall|i: int|
                0 <= i < c ==> {
                    let n = #[trigger] category_names()[i];
                    &&& (r@[i] is Some <==> listed(contributions@, n) && listed(supplied@, n))
                    &&& r@[i] matches Some(p) ==> found_at(contributions@, n, Some(p.0))
                        && found_at(supplied@, n, Some(p.1))
                },
        decreases categories@.len() - c,
    {
        assert(categories@[c as int]@ == category_names()[c as int]);
        let k = position_of(contributions, &categories[c]);
        let p = position_of(supplied, &categories[c]);
        let entry = match (k, p) {
            (Some(k), Some(p)) => Some((k, p)),
            _ => None,
        };
        r.push(entry);
        c = c + 1;
    }
    r
}

impl LinkedCostItem {
    /// Prices a linked item: resolves its currency and its price year in the
    /// library, and finds what each of its formulas reads.
    pub fn get_costs(&self, cost_item: &CostItemParameters, cost_library: &CostLibrary) -> (r:
        Result<CostItemPlan, CostEstimateError>)
        requires
            located(*cost_library, self.module_index as int, self.item_index as int),
        ensures
            ({
                let item = item_at(*cost_library, self.module_index as int, self.item_index as int);
                &&& r is Ok <==> prices_ok(*cost_library, item)
                &&& r matches Err(e) ==> e@ == pricing_error(*cost_library, item)
                &&& r matches Ok(plan) ==> {
                    &&& plan.id@ == self.id@
                    &&& plan.quantity == self.quantity
                    &&& plan.module_index == self.module_index
                    &&& plan.item_index == self.item_index
                    &&& plan_reads(*cost_library, item, cost_item.parameters@, plan)
                }
            }),
    {
        let item = &cost_library.modules[self.module_index].cost_items[self.item_index];
        let currency_rate = match currency_rate_index(cost_library, &item.currency) {
            Ok(i) => i,
            Err(e) => return Err(e),
        };
        let year = year_key(item.year);
        let inflation_factor = match inflation_factor_index(cost_library, &year) {
            Ok(i) => i,
            Err(e) => return Err(e),
        };
        let cost_type = match item.cost_type {
            Some(t) => t,
            None => CostReferenceItemCostType::DirectEquipmentCost,
        };
        Ok(
            CostItemPlan {
                id: self.id.clone(),
                quantity: self.quantity,
                module_index: self.module_index,
                item_index: self.item_index,
                cost_type,
                currency_rate,
                inflation_factor,
                formula_parameters: formula_parameter_positions(item, &cost_item.parameters),
                variable_opex: variable_opex_positions(item, &cost_item.parameters),
            },
        )
    }
}

} // verus!
