use product_catalog::catalog::products_page;
use product_catalog::pagination::resolve;
use product_catalog::values::ColValue;

/// Rows with ids 1 through n; the other columns are left absent and
/// default during mapping.
fn rows_with_ids(n: i64) -> Vec<Vec<(String, ColValue)>> {
    let mut rows = Vec::new();
    let mut i: i64 = 1;
    while i <= n {
        rows.push(vec![(String::from("id"), ColValue::Integer(i))]);
        i += 1;
    }
    rows
}

#[test]
fn test_pagination_params() {
    let rows = rows_with_ids(500);
    let pages = [1, 2, 3, 4, 5];
    let limits = [1, 2, 3, 4, 5];
    for (index, (page, limit)) in pages.iter().zip(limits.iter()).enumerate() {
        let products = products_page(&rows, Some(*page), Some(*limit)).unwrap();
        assert_eq!(products.len(), index + 1);
    }
}

#[test]
fn test_pagination_pages() {
    let rows = rows_with_ids(500);
    let pages = [-1000, -22, -1];
    for page in pages.iter() {
        let products = products_page(&rows, Some(*page), None).unwrap();
        assert_eq!(products.get(0).unwrap().id, 1);
    }
}

#[test]
fn test_defaults_when_parameters_absent() {
    let w = resolve(None, None, 100).unwrap();
    assert_eq!(w.effective_page, 1);
    assert_eq!(w.effective_limit, 10);
    assert_eq!(w.offset, 0);
    assert_eq!(w.fetch_count, 10);
}

#[test]
fn test_limit_above_maximum_becomes_default() {
    let w = resolve(Some(1), Some(51), 100).unwrap();
    assert_eq!(w.effective_limit, 10);
    let w = resolve(Some(1), Some(999), 100).unwrap();
    assert_eq!(w.effective_limit, 10);
}

#[test]
fn test_non_positive_limit_becomes_default() {
    let w = resolve(Some(1), Some(0), 100).unwrap();
    assert_eq!(w.effective_limit, 10);
    let w = resolve(Some(1), Some(-3), 100).unwrap();
    assert_eq!(w.effective_limit, 10);
}

#[test]
fn test_maximum_limit_is_kept() {
    let w = resolve(Some(1), Some(50), 100).unwrap();
    assert_eq!(w.effective_limit, 50);
}

#[test]
fn test_non_positive_page_becomes_first() {
    let w = resolve(Some(0), Some(10), 100).unwrap();
    assert_eq!(w.effective_page, 1);
    let w = resolve(Some(-7), Some(10), 100).unwrap();
    assert_eq!(w.effective_page, 1);
}

#[test]
fn test_page_beyond_last_clamps_to_last() {
    let w = resolve(Some(11), Some(10), 100).unwrap();
    assert_eq!(w.effective_page, 10);
    assert_eq!(w.offset, 90);
    assert_eq!(w.fetch_count, 100);
}

#[test]
fn test_empty_collection_has_no_window() {
    assert!(resolve(Some(3), Some(20), 0).is_none());
    assert!(resolve(None, None, 0).is_none());
}

#[test]
fn test_collection_shorter_than_one_page() {
    // last full page is floor(5 / 10) = 0: the request lands on page one,
    // whose window still covers the five rows there are.
    let w = resolve(Some(1), Some(10), 5).unwrap();
    assert_eq!(w.effective_page, 1);
    assert_eq!(w.offset, 0);
    let rows = rows_with_ids(5);
    let products = products_page(&rows, Some(1), Some(10)).unwrap();
    assert_eq!(products.len(), 5);
}

#[test]
fn test_full_page_has_exactly_limit_rows() {
    let rows = rows_with_ids(100);
    for page in 1..=10 {
        let products = products_page(&rows, Some(page), Some(10)).unwrap();
        assert_eq!(products.len(), 10);
        assert_eq!(products[0].id, (page - 1) * 10 + 1);
    }
}
