use costing::combinators::{add_options, partition_results, product_or_none, sum_or_none};

#[test]
fn add_options_keeps_absence_apart_from_zero() {
    assert_eq!(add_options(Some(1.5_f64), Some(2.0)), Some(3.5));
    assert_eq!(add_options(Some(1.5_f64), None), Some(1.5));
    assert_eq!(add_options(None, Some(2.0_f64)), Some(2.0));
    assert_eq!(add_options::<f64>(None, None), None);
    assert_eq!(add_options(Some(0.0_f64), None), Some(0.0));
}

#[test]
fn product_and_sum_need_both_sides() {
    assert_eq!(product_or_none(Some(2.0_f64), Some(0.6)), Some(1.2));
    assert_eq!(product_or_none(Some(2.0_f64), None), None);
    assert_eq!(product_or_none::<f64>(None, Some(2.0)), None);
    assert_eq!(sum_or_none(Some(2u32), Some(3)), Some(5));
    assert_eq!(sum_or_none(None, Some(3u32)), None);
}

#[test]
fn partition_keeps_order() {
    let results: Vec<Result<u32, String>> =
        vec![Ok(1), Err("a".to_string()), Ok(2), Err("b".to_string()), Ok(3)];
    let (oks, errs) = partition_results(results);
    assert_eq!(oks, vec![1, 2, 3]);
    assert_eq!(errs, vec!["a".to_string(), "b".to_string()]);
    let (oks, errs) = partition_results::<u32, String>(vec![]);
    assert!(oks.is_empty() && errs.is_empty());
}
