//! The cost reference library: modules of reference items, the currencies it converts between, the years it has inflation factors for, and the registry of library versions.

use vstd::prelude::*;

verus! {

/// Which capital-cost category a reference item's formula prices.
#[derive(Debug, Clone, Copy, PartialEq, Eq, Structural)]
pub enum CostReferenceItemCostType {
    DirectEquipmentCost,
    TotalInstalledCost,
}

/// The shape of a capital-cost formula. Its coefficients stay with the
/// caller, in the same order.
#[derive(Debug, Clone)]
pub enum Cost {
    /// A base cost scaled by the ratio of each scaling factor.
    Linear,
    /// A sum of parts: each is a constant (`None`) or reads the named
    /// parameter.
    Polynomial { dimensions: Vec<Option<String>> },
}

/// One catalog entry, as far as the estimate's decisions read it: its id,
/// the names of the parameters its formulas scale with, and the currency and
/// year its prices are quoted in. The numeric coefficients stay with the
/// caller, in the same order.
#[derive(Debug, Clone)]
pub struct CostReferenceItem {
    pub id: String,
    /// `None` prices the item as direct equipment cost.
    pub cost_type: Option<CostReferenceItemCostType>,
    /// The capital-cost formula.
    pub cost: Cost,
    /// Names of the scaling factors of the linear capital formula.
    pub scaling_factors: Vec<String>,
    /// Names of the variable operating-cost contributions.
    pub variable_opex_contributions: Vec<String>,
    /// Currency of the capital contribution.
    pub currency: String,
    /// Price year of the capital contribution.
    pub year: u32,
}

/// A group of reference items.
#[derive(Debug, Clone)]
pub struct CostModule {
    pub id: String,
    pub cost_items: Vec<CostReferenceItem>,
}

/// The currencies that a library converts between; their rates stay with the
/// caller, in the same order.
#[derive(Debug, Clone)]
pub struct CurrencyConversionRates {
    pub base_currency: String,
    pub currencies: Vec<String>,
}

/// The years, as text, for which a library has an inflation factor; the
/// factors stay with the caller, in the same order.
#[derive(Debug, Clone)]
pub struct InflationRates {
    pub years: Vec<String>,
}

/// One version of the cost reference library.
#[derive(Debug, Clone)]
pub struct CostLibrary {
    pub modules: Vec<CostModule>,
    pub currency_conversion: CurrencyConversionRates,
    pub inflation: InflationRates,
}

/// No library is registered under the requested id.
#[derive(Debug, Clone, PartialEq, Eq)]
pub struct CostLibraryNotFoundError {
    pub library_id: String,
}

impl CostLibraryNotFoundError {
    pub fn new(library_id: &str) -> (r: CostLibraryNotFoundError)
        ensures
            r.library_id@ == library_id@,
    {
        CostLibraryNotFoundError { library_id: library_id.to_owned() }
    }
}

/// The library versions available to estimates, each under its id. Loaded
/// once and only read afterwards.
#[derive(Debug, Clone)]
pub struct CostLibraries {
    pub ids: Vec<String>,
    pub libraries: Vec<CostLibrary>,
}

impl CostLibraries {
    /// Each id has its library.
    pub open spec fn wf(&self) -> bool {
        self.ids@.len() == self.libraries@.len()
    }

    /// The library registered under `library_id`; the first, where several
    /// share it.
    pub fn get(&self, library_id: &String) -> (r: Result<&CostLibrary, CostLibraryNotFoundError>)
        requires
            self.wf(),
        ensures
            r is Err <==> !listed(self.ids@, library_id@),
            r matches Err(e) ==> e.library_id@ == library_id@,
            r matches Ok(lib) ==> exists|i: int|
                found_at(self.ids@, library_id@, Some(i as usize)) && 0 <= i && *lib
                    == self.libraries@[i],
    {
        match position_of(&self.ids, library_id) {
            Some(i) => Ok(&self.libraries[i]),
            None => Err(CostLibraryNotFoundError::new(library_id.as_str())),
        }
    }
}

/// The codes of the currencies a library converts between.
pub fn get_currencies(cost_library: &CostLibrary) -> (r: Vec<String>)
    ensures
        texts(r@) == texts(cost_library.currency_conversion.currencies@),
{
    let codes = &cost_library.currency_conversion.currencies;
    let mut r: Vec<String> = Vec::new();
    let mut i: usize = 0;
    while i < codes.len()
        invariant
            i <= codes@.len(),
            r@ =~= codes@.take(i as int),
        decreases codes@.len() - i,
    {
        let ghost before = r@;
        r.push(codes[i].clone());
        assert(codes@.take(i as int + 1) =~= codes@.take(i as int).push(codes@[i as int]));
        assert(r@ =~= before.push(codes@[i as int]));
        i = i + 1;
    }
    assert(codes@.take(i as int) =~= codes@);
    r
}

/// The texts of a list of strings.
pub open spec fn texts(v: Seq<String>) -> Seq<Seq<char>> {
    v.map_values(|s: String| s@)
}

/// The effective cost type: none counts as direct equipment cost.
pub open spec fn effective_cost_type(item: CostReferenceItem) -> CostReferenceItemCostType {
    match item.cost_type {
        Some(t) => t,
        None => CostReferenceItemCostType::DirectEquipmentCost,
    }
}

/// The names of every parameter that an item's formulas read.
pub open spec fn required_names(item: CostReferenceItem) -> Set<Seq<char>> {
    texts(item.scaling_factors@).to_set() + texts(item.variable_opex_contributions@).to_set()
}

/// Whether position `(m, k)` holds an item of the library.
pub open spec fn located(lib: CostLibrary, m: int, k: int) -> bool {
    0 <= m < lib.modules@.len() && 0 <= k < lib.modules@[m].cost_items@.len()
}

/// The item at position `(m, k)`.
pub open spec fn item_at(lib: CostLibrary, m: int, k: int) -> CostReferenceItem {
    lib.modules@[m].cost_items@[k]
}

/// Whether some item of the library has id `id`.
pub open spec fn has_item(lib: CostLibrary, id: Seq<char>) -> bool {
    exists|m: int, k: int| located(lib, m, k) && (#[trigger] item_at(lib, m, k)).id@ == id
}

/// Position `(m, k)` holds the last item, in module order, whose id is `id`.
pub open spec fn is_last_with_id(lib: CostLibrary, id: Seq<char>, m: int, k: int) -> bool {
    &&& located(lib, m, k)
    &&& item_at(lib, m, k).id@ == id
    &&& forall|m2: int, k2: int|
        located(lib, m2, k2) && (#[trigger] item_at(lib, m2, k2)).id@ == id ==> m2 < m || (m2
            == m && k2 <= k)
}

/// Whether some string of `names` has the text `n`.
pub open spec fn listed(names: Seq<String>, n: Seq<char>) -> bool {
    exists|j: int| 0 <= j < names.len() && (#[trigger] names[j])@ == n
}

/// `r` is the first position of `n` in `names`, or none where it is absent.
pub open spec fn found_at(names: Seq<String>, n: Seq<char>, r: Option<usize>) -> bool {
    match r {
        Some(i) => i < names.len() && names[i as int]@ == n && forall|j: int|
            0 <= j < i ==> (#[trigger] names[j])@ != n,
        None => !listed(names, n),
    }
}

/// The first position of `name` among `names`.
pub fn position_of(names: &Vec<String>, name: &String) -> (r: Option<usize>)
    ensures
        found_at(names@, name@, r),
{
    let mut i: usize = 0;
    while i < names.len()
        invariant
            i <= names@.len(),
            forall|j: int| 0 <= j < i ==> names@[j]@ != name@,
        decreases names@.len() - i,
    {
        if names[i] == *name {
            return Some(i);
        }
        i = i + 1;
    }
    assert(!listed(names@, name@));
    None
}

impl CostLibrary {
    /// The position of the item whose id is `id`; where several share it,
    /// the last one in module order.
    pub fn find_item(&self, id: &String) -> (r: Option<(usize, usize)>)
        ensures
            r is None <==> !has_item(*self, id@),
            r matches Some((m, k)) ==> is_last_with_id(*self, id@, m as int, k as int),
    {
        let mut found: Option<(usize, usize)> = None;
        let mut m: usize = 0;
        while m < self.modules.len()
            invariant
                m <= self.modules@.len(),
                found is None ==> forall|m2: int, k2: int|
                    located(*self, m2, k2) && m2 < m ==> (#[trigger] item_at(*self, m2, k2)).id@
                        != id@,
                found matches Some((fm, fk)) ==> {
                    &&& fm < m
                    &&& located(*self, fm as int, fk as int)
                    &&& item_at(*self, fm as int, fk as int).id@ == id@
                    &&& forall|m2: int, k2: int|
                        located(*self, m2, k2) && m2 < m && (#[trigger] item_at(
                            *self,
                            m2,
                            k2,
                        )).id@ == id@ ==> m2 < fm || (m2 == fm && k2 <= fk)
                },
            decreases self.modules@.len() - m,
        {
            let items = &self.modules[m].cost_items;
            let mut k: usize = 0;
            while k < items.len()
                invariant
                    m < self.modules@.len(),
                    items == self.modules@[m as int].cost_items,
                    k <= items@.len(),
                    found is None ==> forall|m2: int, k2: int|
                        located(*self, m2, k2) && (m2 < m || (m2 == m && k2 < k))
                            ==> (#[trigger] item_at(*self, m2, k2)).id@ != id@,
                    found matches Some((fm, fk)) ==> {
                        &&& fm <= m
                        &&& (fm == m ==> fk < k)
                        &&& located(*self, fm as int, fk as int)
                        &&& item_at(*self, fm as int, fk as int).id@ == id@
                        &&& forall|m2: int, k2: int|
                            located(*self, m2, k2) && (m2 < m || (m2 == m && k2 < k)) && (
                            #[trigger] item_at(*self, m2, k2)).id@ == id@ ==> m2 < fm || (m2
                                == fm && k2 <= fk)
                    },
                decreases items@.len() - k,
            {
                if items[k].id == *id {
                    found = Some((m, k));
                }
                k = k + 1;
            }
            m = m + 1;
        }
        proof {
            if found is None {
                assert forall|m2: int, k2: int| located(*self, m2, k2) implies #[trigger] item_at(
                    *self,
                    m2,
                    k2,
                ).id@ != id@ by {}
            }
        }
        found
    }
}

} // verus!
