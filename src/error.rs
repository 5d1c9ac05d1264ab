//! The errors of an estimate, and how several of them combine into one.

use vstd::prelude::*;

verus! {

/// A parameter that a cost item's formulas need but that the request left out.
#[derive(Debug, Clone, PartialEq, Eq)]
pub struct MissingProperty {
    /// The request-side id of the cost item.
    pub id: String,
    /// The name of the absent parameter.
    pub property: String,
}

/// One or more parameters were absent, over one or more cost items.
#[derive(Debug, Clone, PartialEq, Eq)]
pub struct CostEstimateErrorMissingProperties {
    pub properties: Vec<MissingProperty>,
}

/// A cost item referred to an id that the library does not hold.
#[derive(Debug, Clone, PartialEq, Eq)]
pub struct CostEstimateErrorUnknownCostItem {
    /// The request-side id of the cost item.
    pub id: String,
}

/// A currency code is absent from the library's rate table.
#[derive(Debug, Clone, PartialEq, Eq)]
pub struct CostEstimateErrorUnknownCurrencyConversion {
    pub currency: String,
}

/// A year is absent from the library's inflation table.
#[derive(Debug, Clone, PartialEq, Eq)]
pub struct CostEstimateErrorUnknownInflationFactor {
    pub year: String,
}

/// Everything that can make an estimate fail.
#[derive(Debug, Clone, PartialEq, Eq)]
pub enum CostEstimateError {
    MissingProperties(CostEstimateErrorMissingProperties),
    UnknownCostItem(CostEstimateErrorUnknownCostItem),
    UnknownCurrencyConversion(CostEstimateErrorUnknownCurrencyConversion),
    UnknownInflationFactor(CostEstimateErrorUnknownInflationFactor),
}

/// What an error says: its kind, and its items as plain values. A missing
/// property is the pair (cost item id, parameter name).
pub enum ErrorView {
    MissingProperties(Seq<(Seq<char>, Seq<char>)>),
    UnknownCostItem(Seq<char>),
    UnknownCurrencyConversion(Seq<char>),
    UnknownInflationFactor(Seq<char>),
}

impl MissingProperty {
    pub open spec fn view(&self) -> (Seq<char>, Seq<char>) {
        (self.id@, self.property@)
    }
}

impl CostEstimateErrorMissingProperties {
    pub open spec fn view(&self) -> Seq<(Seq<char>, Seq<char>)> {
        self.properties@.map_values(|p: MissingProperty| p@)
    }
}

impl CostEstimateError {
    pub open spec fn view(&self) -> ErrorView {
        match self {
            CostEstimateError::MissingProperties(e) => ErrorView::MissingProperties(e@),
            CostEstimateError::UnknownCostItem(e) => ErrorView::UnknownCostItem(e.id@),
            CostEstimateError::UnknownCurrencyConversion(e) =>
                ErrorView::UnknownCurrencyConversion(e.currency@),
            CostEstimateError::UnknownInflationFactor(e) =>
                ErrorView::UnknownInflationFactor(e.year@),
        }
    }
}

/// The error that combining `a` with `b` yields: two missing-property lists
/// are joined, `a`'s first; otherwise an error of another kind wins, one on
/// the right before one on the left, in the order unknown cost item, unknown
/// currency, unknown inflation year.
pub open spec fn combined(a: ErrorView, b: ErrorView) -> ErrorView {
    match (a, b) {
        (ErrorView::MissingProperties(x), ErrorView::MissingProperties(y)) =>
            ErrorView::MissingProperties(x + y),
        (_, ErrorView::UnknownCostItem(e)) => ErrorView::UnknownCostItem(e),
        (ErrorView::UnknownCostItem(e), _) => ErrorView::UnknownCostItem(e),
        (_, ErrorView::UnknownCurrencyConversion(e)) => ErrorView::UnknownCurrencyConversion(e),
        (ErrorView::UnknownCurrencyConversion(e), _) => ErrorView::UnknownCurrencyConversion(e),
        (_, ErrorView::UnknownInflationFactor(e)) => ErrorView::UnknownInflationFactor(e),
        (ErrorView::UnknownInflationFactor(e), _) => ErrorView::UnknownInflationFactor(e),
    }
}

/// The errors of `errs` combined from left to right, the first one being the
/// start; `None` for no errors.
pub open spec fn combined_all(errs: Seq<ErrorView>) -> Option<ErrorView>
    decreases errs.len(),
{
    if errs.len() == 0 {
        None
    } else {
        match combined_all(errs.drop_last()) {
            None => Some(errs.last()),
            Some(acc) => Some(combined(acc, errs.last())),
        }
    }
}

/// Combining two missing-property errors keeps every pair of both, and adds
/// none: the result lists those of `a` and then those of `b`, so a pair is
/// in it exactly when it is in either.
pub proof fn lemma_combine_missing_union(
    a: Seq<(Seq<char>, Seq<char>)>,
    b: Seq<(Seq<char>, Seq<char>)>,
)
    ensures
        combined(ErrorView::MissingProperties(a), ErrorView::MissingProperties(b))
            == ErrorView::MissingProperties(a + b),
        (a + b).len() == a.len() + b.len(),
        forall|p: (Seq<char>, Seq<char>)| #[trigger] (a + b).contains(p) <==> a.contains(p) || b.contains(p),
{
    assert forall|p: (Seq<char>, Seq<char>)| #[trigger] (a + b).contains(p) <==> a.contains(p) || b.contains(p) by {
        if (a + b).contains(p) {
            let i = choose|i: int| 0 <= i < (a + b).len() && (a + b)[i] == p;
            if i < a.len() {
                assert(a[i] == p);
            } else {
                assert(b[i - a.len()] == p);
            }
        }
        if a.contains(p) {
            let i = choose|i: int| 0 <= i < a.len() && a[i] == p;
            assert((a + b)[i] == p);
        }
        if b.contains(p) {
            let i = choose|i: int| 0 <= i < b.len() && b[i] == p;
            assert((a + b)[a.len() + i] == p);
        }
    }
}

impl CostEstimateErrorMissingProperties {
    /// Joins two lists of missing properties, `self`'s first.
    pub fn combine(self, other: CostEstimateErrorMissingProperties) -> (r:
        CostEstimateErrorMissingProperties)
        ensures
            r.properties@ == self.properties@ + other.properties@,
            r@ == self@ + other@,
    {
        let mut properties = self.properties;
        let mut rest = other.properties;
        properties.append(&mut rest);
        let r = CostEstimateErrorMissingProperties { properties };
        assert(r@ =~= self@ + other@);
        r
    }
}

impl CostEstimateError {
    /// Merges two errors into one, as `combined` says.
    pub fn combine(self, other: CostEstimateError) -> (r: CostEstimateError)
        ensures
            r@ == combined(self@, other@),
    {
        match (self, other) {
            (CostEstimateError::MissingProperties(a), CostEstimateError::MissingProperties(b)) => {
                CostEstimateError::MissingProperties(a.combine(b))
            },
            (_, CostEstimateError::UnknownCostItem(a)) => CostEstimateError::UnknownCostItem(a),
            (CostEstimateError::UnknownCostItem(a), _) => CostEstimateError::UnknownCostItem(a),
            (_, CostEstimateError::UnknownCurrencyConversion(a)) => {
                CostEstimateError::UnknownCurrencyConversion(a)
            },
            (CostEstimateError::UnknownCurrencyConversion(a), _) => {
                CostEstimateError::UnknownCurrencyConversion(a)
            },
            (_, CostEstimateError::UnknownInflationFactor(a)) => {
                CostEstimateError::UnknownInflationFactor(a)
            },
            (CostEstimateError::UnknownInflationFactor(a), _) => {
                CostEstimateError::UnknownInflationFactor(a)
            },
        }
    }
}

/// Combines a list of errors from left to right; `None` for an empty list.
pub fn combine_errors(errors: Vec<CostEstimateError>) -> (r: Option<CostEstimateError>)
    ensures
        r.is_some() == (errors@.len() > 0),
        r matches Some(e) ==> Some(e@) == combined_all(errors@.map_values(|e: CostEstimateError| e@)),
{
    let ghost views = errors@.map_values(|e: CostEstimateError| e@);
    let mut acc: Option<CostEstimateError> = None;
    let mut i: usize = 0;
    let mut errors = errors;
    let n: usize = errors.len();
    let ghost all = errors@;
    assert(all.skip(0) =~= all);
    while errors.len() > 0
        invariant
            0 <= i <= all.len(),
            errors@ == all.skip(i as int),
            all.len() == n,
            views == all.map_values(|e: CostEstimateError| e@),
            acc.is_some() == (i > 0),
            acc matches Some(e) ==> Some(e@) == combined_all(views.take(i as int)),
        decreases errors@.len(),
    {
        let next = errors.remove(0);
        assert(errors@ =~= all.skip(i as int + 1));
        assert(views.take(i as int + 1).drop_last() =~= views.take(i as int));
        acc = match acc {
            None => Some(next),
            Some(a) => Some(a.combine(next)),
        };
        i = i + 1;
    }
    assert(views.take(i as int) =~= views);
    acc
}

} // verus!
