use costing::error::{
    combine_errors, CostEstimateError, CostEstimateErrorMissingProperties,
    CostEstimateErrorUnknownCostItem, CostEstimateErrorUnknownCurrencyConversion,
    CostEstimateErrorUnknownInflationFactor, MissingProperty,
};

fn missing(pairs: &[(&str, &str)]) -> CostEstimateError {
    CostEstimateError::MissingProperties(CostEstimateErrorMissingProperties {
        properties: pairs
            .iter()
            .map(|(id, p)| MissingProperty { id: id.to_string(), property: p.to_string() })
            .collect(),
    })
}

fn unknown_item(id: &str) -> CostEstimateError {
    CostEstimateError::UnknownCostItem(CostEstimateErrorUnknownCostItem { id: id.to_string() })
}

fn unknown_currency(c: &str) -> CostEstimateError {
    CostEstimateError::UnknownCurrencyConversion(CostEstimateErrorUnknownCurrencyConversion {
        currency: c.to_string(),
    })
}

fn unknown_year(y: &str) -> CostEstimateError {
    CostEstimateError::UnknownInflationFactor(CostEstimateErrorUnknownInflationFactor {
        year: y.to_string(),
    })
}

#[test]
fn missing_properties_of_two_items_are_joined() {
    let a = missing(&[("c1", "length"), ("c1", "depth")]);
    let b = missing(&[("c2", "length")]);
    assert_eq!(
        a.combine(b),
        missing(&[("c1", "length"), ("c1", "depth"), ("c2", "length")])
    );
}

#[test]
fn equal_pairs_are_kept_both() {
    let a = missing(&[("c1", "length")]);
    let b = missing(&[("c1", "length")]);
    assert_eq!(a.combine(b), missing(&[("c1", "length"), ("c1", "length")]));
}

#[test]
fn other_kinds_win_over_missing_properties() {
    assert_eq!(missing(&[("c1", "x")]).combine(unknown_item("c2")), unknown_item("c2"));
    assert_eq!(unknown_item("c2").combine(missing(&[("c1", "x")])), unknown_item("c2"));
    assert_eq!(missing(&[]).combine(unknown_currency("KHR")), unknown_currency("KHR"));
    assert_eq!(unknown_year("1066").combine(missing(&[])), unknown_year("1066"));
}

#[test]
fn the_right_error_wins_between_equal_kinds() {
    assert_eq!(unknown_item("a").combine(unknown_item("b")), unknown_item("b"));
    assert_eq!(unknown_year("1").combine(unknown_year("2")), unknown_year("2"));
}

#[test]
fn unknown_cost_item_wins_over_currency_and_year() {
    assert_eq!(unknown_item("a").combine(unknown_currency("X")), unknown_item("a"));
    assert_eq!(unknown_currency("X").combine(unknown_item("a")), unknown_item("a"));
    assert_eq!(unknown_currency("X").combine(unknown_year("1")), unknown_currency("X"));
    assert_eq!(unknown_year("1").combine(unknown_currency("X")), unknown_currency("X"));
}

#[test]
fn combining_a_list_folds_from_the_left() {
    assert_eq!(combine_errors(vec![]), None);
    assert_eq!(combine_errors(vec![unknown_year("1")]), Some(unknown_year("1")));
    assert_eq!(
        combine_errors(vec![
            missing(&[("c1", "a")]),
            missing(&[("c2", "b")]),
            missing(&[("c3", "c")]),
        ]),
        Some(missing(&[("c1", "a"), ("c2", "b"), ("c3", "c")]))
    );
    assert_eq!(
        combine_errors(vec![missing(&[("c1", "a")]), unknown_item("c2"), missing(&[("c3", "c")])]),
        Some(unknown_item("c2"))
    );
}

#[test]
fn missing_properties_combine_directly() {
    let a = CostEstimateErrorMissingProperties {
        properties: vec![MissingProperty { id: "x".to_string(), property: "p".to_string() }],
    };
    let b = CostEstimateErrorMissingProperties { properties: vec![] };
    assert_eq!(a.clone().combine(b), a);
}
