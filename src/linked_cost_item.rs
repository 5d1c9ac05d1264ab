//! Linking a requested cost item to the reference item it names.

use vstd::prelude::*;
use crate::error::{
    CostEstimateError, CostEstimateErrorMissingProperties, CostEstimateErrorUnknownCostItem,
    ErrorView, MissingProperty,
};
use crate::library::{
    has_item, is_last_with_id, item_at, listed, located, position_of, CostLibrary, CostReferenceItem,
};
use crate::request::CostItemParameters;

verus! {

/// Whether an item's formulas read a parameter named `n`.
pub open spec fn requires_name(item: CostReferenceItem, n: Seq<char>) -> bool {
    listed(item.scaling_factors@, n) || listed(item.variable_opex_contributions@, n)
}

/// The names that an item's formulas read and that `supplied` lacks.
pub open spec fn missing_names(item: CostReferenceItem, supplied: Seq<String>) -> Set<Seq<char>> {
    Set::new(|n: Seq<char>| requires_name(item, n) && !listed(supplied, n))
}

/// `s` names each of `names` once, for cost item `id`, and nothing else.
pub open spec fn names_exactly(
    s: Seq<(Seq<char>, Seq<char>)>,
    id: Seq<char>,
    names: Set<Seq<char>>,
) -> bool {
    &&& s.no_duplicates()
    &&& forall|a: int| 0 <= a < s.len() ==> (#[trigger] s[a]).0 == id && names.contains(s[a].1)
    &&& forall|n: Seq<char>| #[trigger] names.contains(n) ==> exists|a: int|
        0 <= a < s.len() && (#[trigger] s[a]) == (id, n)
}

/// The position of the item that a reference id resolves to: the last one,
/// in module order, that holds the id.
pub open spec fn resolved(lib: CostLibrary, id: Seq<char>) -> (int, int) {
    choose|p: (int, int)| is_last_with_id(lib, id, p.0, p.1)
}

/// A requested cost item joined with the library item it refers to, which is
/// named by its position in the library.
#[derive(Debug, Clone)]
pub struct LinkedCostItem {
    /// The request-side id.
    pub id: String,
    pub quantity: u32,
    /// The module that holds the reference item.
    pub module_index: usize,
    /// The reference item's place in its module.
    pub item_index: usize,
}

proof fn lemma_last_unique(lib: CostLibrary, id: Seq<char>, m: int, k: int)
    requires
        is_last_with_id(lib, id, m, k),
    ensures
        resolved(lib, id) == (m, k),
{
    let w = (m, k);
    assert(is_last_with_id(lib, id, w.0, w.1));
    let p = resolved(lib, id);
    assert(is_last_with_id(lib, id, p.0, p.1));
    assert(item_at(lib, m, k).id@ == id);
    assert(item_at(lib, p.0, p.1).id@ == id);
}

/// Supplying exactly the parameters an item reads leaves none missing, so
/// linking succeeds.
pub proof fn lemma_exact_parameters_link(item: CostReferenceItem, supplied: Seq<String>)
    requires
        forall|n: Seq<char>| #[trigger] listed(supplied, n) <==> requires_name(item, n),
    ensures
        missing_names(item, supplied).is_empty(),
{
    assert(missing_names(item, supplied) =~= Set::empty());
}

/// Supplying every parameter an item reads but one, `p`, leaves exactly `p`
/// missing, so linking fails naming `p` alone.
pub proof fn lemma_one_parameter_short(
    item: CostReferenceItem,
    supplied: Seq<String>,
    p: Seq<char>,
)
    requires
        requires_name(item, p),
        forall|n: Seq<char>| #[trigger] listed(supplied, n) <==> requires_name(item, n) && n != p,
    ensures
        missing_names(item, supplied) == set![p],
        forall|s: Seq<(Seq<char>, Seq<char>)>, id: Seq<char>|
            #[trigger] names_exactly(s, id, missing_names(item, supplied)) ==> s == seq![(id, p)],
{
    assert(missing_names(item, supplied) =~= set![p]);
    assert forall|s: Seq<(Seq<char>, Seq<char>)>, id: Seq<char>|
        #[trigger] names_exactly(s, id, missing_names(item, supplied)) implies s == seq![(id, p)] by {
        let names = missing_names(item, supplied);
        assert(names.contains(p));
        let a = choose|a: int| 0 <= a < s.len() && (#[trigger] s[a]) == (id, p);
        assert forall|b: int| 0 <= b < s.len() implies s[b] == (id, p) by {
            assert(names.contains(s[b].1));
        }
        if s.len() > 1 {
            let b = if a == 0 { 1int } else { 0int };
            assert(s[a] == s[b]);
        }
        assert(s =~= seq![(id, p)]);
    }
}

/// Whether `props` already names `name`.
fn names_property(props: &Vec<MissingProperty>, name: &String) -> (r: bool)
    ensures
        r == exists|a: int| 0 <= a < props@.len() && (#[trigger] props@[a]).property@ == name@,
{
    let mut a: usize = 0;
    while a < props.len()
        invariant
            a <= props@.len(),
            forall|b: int| 0 <= b < a ==> (#[trigger] props@[b]).property@ != name@,
        decreases props@.len() - a,
    {
        if props[a].property == *name {
            return true;
        }
        a = a + 1;
    }
    false
}

impl LinkedCostItem {
    /// Resolves a requested cost item in the library and checks that it
    /// supplies every parameter the reference item's formulas read.
    pub fn find_and_link(cost_item: &CostItemParameters, cost_library: &CostLibrary) -> (r: Result<
        LinkedCostItem,
        CostEstimateError,
    >)
        ensures
            !has_item(*cost_library, cost_item.cost_item_ref@) ==> (r matches Err(e) && e@
                == ErrorView::UnknownCostItem(cost_item.id@)),
            has_item(*cost_library, cost_item.cost_item_ref@) ==> {
                let p = resolved(*cost_library, cost_item.cost_item_ref@);
                let missing = missing_names(
                    item_at(*cost_library, p.0, p.1),
                    cost_item.parameters@,
                );
                &&& r is Ok <==> missing.is_empty()
                &&& r matches Ok(l) ==> l.id@ == cost_item.id@ && l.quantity == cost_item.quantity
                    && l.module_index == p.0 && l.item_index == p.1 && is_last_with_id(
                    *cost_library,
                    cost_item.cost_item_ref@,
                    p.0,
                    p.1,
                )
                &&& r matches Err(e) ==> (e@ matches ErrorView::MissingProperties(s) && names_exactly(
                    s,
                    cost_item.id@,
                    missing,
                ))
            },
    {
        match cost_library.find_item(&cost_item.cost_item_ref) {
            None => Err(
                CostEstimateError::UnknownCostItem(
                    CostEstimateErrorUnknownCostItem { id: cost_item.id.clone() },
                ),
            ),
            Some((m, k)) => {
                proof {
                    lemma_last_unique(*cost_library, cost_item.cost_item_ref@, m as int, k as int);
                }
                Self::link(cost_item, &cost_library.modules[m].cost_items[k], m, k)
            },
        }
    }

    fn link(
        cost_item: &CostItemParameters,
        cost_reference_item: &CostReferenceItem,
        module_index: usize,
        item_index: usize,
    ) -> (r: Result<LinkedCostItem, CostEstimateError>)
        ensures
            r is Ok <==> missing_names(*cost_reference_item, cost_item.parameters@).is_empty(),
            r matches Ok(l) ==> l.id@ == cost_item.id@ && l.quantity == cost_item.quantity
                && l.module_index == module_index && l.item_index == item_index,
            r matches Err(e) ==> (e@ matches ErrorView::MissingProperties(s) && names_exactly(
                s,
                cost_item.id@,
                missing_names(*cost_reference_item, cost_item.parameters@),
            )),
    {
        let item = cost_reference_item;
        let ghost missing = missing_names(*item, cost_item.parameters@);
        // Every required name: the scaling factors' first, then the
        // operating-cost contributions'.
        let mut required: Vec<String> = Vec::new();
        let mut i: usize = 0;
        while i < item.scaling_factors.len()
            invariant
                i <= item.scaling_factors@.len(),
                required@ =~= item.scaling_factors@.take(i as int),
            decreases item.scaling_factors@.len() - i,
        {
            required.push(item.scaling_factors[i].clone());
            assert(required@ =~= item.scaling_factors@.take(i as int + 1));
            i = i + 1;
        }
        let mut i: usize = 0;
        while i < item.variable_opex_contributions.len()
            invariant
                i <= item.variable_opex_contributions@.len(),
                required@ =~= item.scaling_factors@ + item.variable_opex_contributions@.take(
                    i as int,
                ),
            decreases item.variable_opex_contributions@.len() - i,
        {
            required.push(item.variable_opex_contributions[i].clone());
            assert(required@ =~= item.scaling_factors@ + item.variable_opex_contributions@.take(
                i as int + 1,
            ));
            i = i + 1;
        }
        assert forall|n: Seq<char>| #[trigger] listed(required@, n) == requires_name(*item, n) by {
            let sf = item.scaling_factors@;
            let vo = item.variable_opex_contributions@;
            if listed(required@, n) {
                let j = choose|j: int| 0 <= j < required@.len() && (#[trigger] required@[j])@ == n;
                if j < sf.len() {
                    assert(sf[j] == required@[j]);
                } else {
                    assert(vo[j - sf.len()] == required@[j]);
                }
            }
            if listed(sf, n) {
                let j = choose|j: int| 0 <= j < sf.len() && (#[trigger] sf[j])@ == n;
                assert(required@[j] == sf[j]);
            }
            if listed(vo, n) {
                let j = choose|j: int| 0 <= j < vo.len() && (#[trigger] vo[j])@ == n;
                assert(required@[sf.len() + j] == vo[j]);
            }
        }

        let mut properties: Vec<MissingProperty> = Vec::new();
        let mut i: usize = 0;
        while i < required.len()
            invariant
                i <= required@.len(),
                missing == missing_names(*item, cost_item.parameters@),
                forall|n: Seq<char>| #[trigger] listed(required@, n) == requires_name(*item, n),
                forall|a: int, b: int|
                    0 <= a < b < properties@.len() ==> (#[trigger] properties@[a]).property@
                        != (#[trigger] properties@[b]).property@,
                forall|a: int|
                    0 <= a < properties@.len() ==> (#[trigger] properties@[a]).id@ == cost_item.id@
                        && missing.contains(properties@[a].property@),
                forall|n: Seq<char>|
                    listed(required@.take(i as int), n) && !listed(cost_item.parameters@, n)
                        ==> exists|a: int|
                        0 <= a < properties@.len() && (#[trigger] properties@[a]).property@ == n,
            decreases required@.len() - i,
        {
            let name = &required[i];
            let supplied = position_of(&cost_item.parameters, name).is_some();
            let ghost before = properties@;
            if !supplied && !names_property(&properties, name) {
                assert(listed(required@, name@) && !listed(cost_item.parameters@, name@));
                assert(missing.contains(name@));
                properties.push(MissingProperty { id: cost_item.id.clone(), property: name.clone() });
                assert(properties@[before.len() as int] == properties@.last());
            }
            assert forall|n: Seq<char>|
                listed(required@.take(i as int + 1), n) && !listed(
                    cost_item.parameters@,
                    n,
                ) implies exists|a: int|
                0 <= a < properties@.len() && (#[trigger] properties@[a]).property@ == n by {
                let t = required@.take(i as int + 1);
                let j = choose|j: int| 0 <= j < t.len() && (#[trigger] t[j])@ == n;
                if j < i {
                    assert(required@.take(i as int)[j] == t[j]);
                    assert(listed(required@.take(i as int), n));
                    let a = choose|a: int| 0 <= a < before.len() && (#[trigger] before[a]).property@ == n;
                    assert(properties@[a] == before[a]);
                } else {
                    assert(t[j] == required@[i as int]);
                    if supplied {
                        assert(listed(cost_item.parameters@, n));
                    }
                }
            }
            i = i + 1;
        }
        assert(required@.take(required@.len() as int) =~= required@);
        if properties.len() == 0 {
            assert forall|n: Seq<char>| !missing.contains(n) by {
                if missing.contains(n) {
                    assert(listed(required@, n));
                }
            }
            assert(missing =~= Set::empty());
            Ok(
                LinkedCostItem {
                    id: cost_item.id.clone(),
                    quantity: cost_item.quantity,
                    module_index,
                    item_index,
                },
            )
        } else {
            assert(missing.contains(properties@[0].property@));
            let e = CostEstimateErrorMissingProperties { properties };
            let ghost s = e@;
            assert(s.no_duplicates()) by {
                assert forall|a: int, b: int| 0 <= a < s.len() && 0 <= b < s.len() && a != b implies s[a]
                    != s[b] by {
                    if a < b {
                        assert(e.properties@[a].property@ != e.properties@[b].property@);
                    } else {
                        assert(e.properties@[b].property@ != e.properties@[a].property@);
                    }
                }
            }
            assert forall|n: Seq<char>| #[trigger] missing.contains(n) implies exists|a: int|
                0 <= a < s.len() && (#[trigger] s[a]) == (cost_item.id@, n) by {
                assert(listed(required@, n));
                let a = choose|a: int| 0 <= a < e.properties@.len() && (#[trigger] e.properties@[a]).property@ == n;
                assert(s[a] == (cost_item.id@, n));
            }
            Err(CostEstimateError::MissingProperties(e))
        }
    }
}

} // verus!
