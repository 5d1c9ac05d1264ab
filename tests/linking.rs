use costing::error::{
    CostEstimateError, CostEstimateErrorMissingProperties, CostEstimateErrorUnknownCostItem,
    MissingProperty,
};
use costing::library::{
    Cost, CostLibrary, CostModule, CostReferenceItem, CostReferenceItemCostType,
    CurrencyConversionRates, InflationRates,
};
use costing::linked_cost_item::LinkedCostItem;
use costing::request::CostItemParameters;

fn names(v: &[&str]) -> Vec<String> {
    v.iter().map(|s| s.to_string()).collect()
}

fn library() -> CostLibrary {
    CostLibrary {
        modules: vec![
            CostModule {
                id: "M0101".to_string(),
                cost_items: vec![CostReferenceItem {
                    id: "Item 001".to_string(),
                    cost_type: None,
                    cost: Cost::Linear,
                    scaling_factors: names(&["length", "depth"]),
                    variable_opex_contributions: vec![],
                    currency: "GBP".to_string(),
                    year: 2024,
                }],
            },
            CostModule {
                id: "M0201".to_string(),
                cost_items: vec![CostReferenceItem {
                    id: "Item 074".to_string(),
                    cost_type: Some(CostReferenceItemCostType::DirectEquipmentCost),
                    cost: Cost::Linear,
                    scaling_factors: names(&["Captured CO2"]),
                    variable_opex_contributions: names(&["Electrical power", "Thermal Duty"]),
                    currency: "GBP".to_string(),
                    year: 2023,
                }],
            },
        ],
        currency_conversion: CurrencyConversionRates {
            base_currency: "GBP".to_string(),
            currencies: names(&["GBP", "EUR"]),
        },
        inflation: InflationRates { years: names(&["2024", "2023"]) },
    }
}

fn cost_item(reference: &str, parameters: &[&str]) -> CostItemParameters {
    CostItemParameters {
        id: "a1".to_string(),
        cost_item_ref: reference.to_string(),
        quantity: 1,
        parameters: names(parameters),
    }
}

#[test]
fn test_find_and_link() {
    let cost_library = library();
    let cost_item = cost_item("Item 074", &["Thermal Duty", "Captured CO2", "Electrical power"]);
    let linked_cost_item = LinkedCostItem::find_and_link(&cost_item, &cost_library).unwrap();
    assert_eq!(linked_cost_item.id, cost_item.id);
    assert_eq!(linked_cost_item.quantity, cost_item.quantity);
    assert_eq!(
        cost_library.modules[linked_cost_item.module_index].cost_items[linked_cost_item.item_index].id,
        "Item 074"
    );
}

#[test]
fn test_find_and_link_missing_parameters() {
    let cost_library = library();
    let cost_item = cost_item("Item 074", &["Captured CO2"]);
    let error = LinkedCostItem::find_and_link(&cost_item, &cost_library).unwrap_err();
    let CostEstimateError::MissingProperties(CostEstimateErrorMissingProperties {
        mut properties,
    }) = error
    else {
        panic!("Wrong error was emitted");
    };
    properties.sort_by_key(|property| property.property.clone());
    assert_eq!(
        properties,
        vec![
            MissingProperty { id: "a1".to_string(), property: "Electrical power".to_string() },
            MissingProperty { id: "a1".to_string(), property: "Thermal Duty".to_string() },
        ]
    )
}

#[test]
fn test_find_and_link_unknown_cost_item() {
    let cost_library = library();
    let cost_item = cost_item("Item 999", &["Captured CO2"]);
    let error = LinkedCostItem::find_and_link(&cost_item, &cost_library).unwrap_err();
    assert_eq!(
        error,
        CostEstimateError::UnknownCostItem(CostEstimateErrorUnknownCostItem {
            id: "a1".to_string()
        })
    )
}

#[test]
fn exact_parameters_link_and_each_one_short_names_it() {
    let cost_library = library();
    let required = ["Captured CO2", "Electrical power", "Thermal Duty"];
    assert!(LinkedCostItem::find_and_link(&cost_item("Item 074", &required), &cost_library).is_ok());
    for left_out in required {
        let supplied: Vec<&str> = required.iter().copied().filter(|n| *n != left_out).collect();
        let error =
            LinkedCostItem::find_and_link(&cost_item("Item 074", &supplied), &cost_library)
                .unwrap_err();
        assert_eq!(
            error,
            CostEstimateError::MissingProperties(CostEstimateErrorMissingProperties {
                properties: vec![MissingProperty {
                    id: "a1".to_string(),
                    property: left_out.to_string()
                }]
            })
        );
    }
}

#[test]
fn unknown_reference_fails_whatever_the_parameters() {
    let cost_library = library();
    for parameters in [&[][..], &["length", "depth"][..], &["Captured CO2"][..]] {
        let error = LinkedCostItem::find_and_link(&cost_item("Item 404", parameters), &cost_library)
            .unwrap_err();
        assert_eq!(
            error,
            CostEstimateError::UnknownCostItem(CostEstimateErrorUnknownCostItem {
                id: "a1".to_string()
            })
        );
    }
}

#[test]
fn extra_parameters_do_not_stop_linking() {
    let cost_library = library();
    let linked =
        LinkedCostItem::find_and_link(&cost_item("Item 001", &["depth", "width", "length"]), &cost_library)
            .unwrap();
    assert_eq!((linked.module_index, linked.item_index), (0, 0));
}

#[test]
fn a_name_read_twice_is_reported_once() {
    let mut cost_library = library();
    cost_library.modules[1].cost_items[0].variable_opex_contributions =
        names(&["Captured CO2", "Electrical power"]);
    let error = LinkedCostItem::find_and_link(&cost_item("Item 074", &[]), &cost_library).unwrap_err();
    let CostEstimateError::MissingProperties(e) = error else {
        panic!("Wrong error was emitted");
    };
    let mut found: Vec<String> = e.properties.into_iter().map(|p| p.property).collect();
    found.sort();
    assert_eq!(found, names(&["Captured CO2", "Electrical power"]));
}

#[test]
fn the_last_item_with_an_id_is_the_one_linked() {
    let mut cost_library = library();
    let mut copy = cost_library.modules[0].cost_items[0].clone();
    copy.scaling_factors = names(&["width"]);
    cost_library.modules[1].cost_items.push(copy);
    let linked =
        LinkedCostItem::find_and_link(&cost_item("Item 001", &["width"]), &cost_library).unwrap();
    assert_eq!((linked.module_index, linked.item_index), (1, 1));
}
