//! End-to-end scenarios over an in-memory collection of one hundred rows.

use product_catalog::catalog::products_page;
use product_catalog::values::ColValue;

fn hundred_rows() -> Vec<Vec<(String, ColValue)>> {
    let mut rows = Vec::new();
    let mut i: i64 = 1;
    while i <= 100 {
        rows.push(vec![
            (String::from("id"), ColValue::Integer(i)),
            (String::from("uid"), ColValue::Text(format!("{}-128", i))),
            (String::from("category"), ColValue::Text(String::from("Computers"))),
            (String::from("cost"), ColValue::Real(String::from("1178.99"))),
            (String::from("review_count"), ColValue::Integer(2)),
            (String::from("review_stars"), ColValue::Integer(1)),
        ]);
        i += 1;
    }
    rows
}

#[test]
fn test_first_page_has_ten_products() {
    let rows = hundred_rows();
    let products = products_page(&rows, Some(1), Some(10)).unwrap();
    assert_eq!(products.len(), 10);
    assert_eq!(products[0].id, 1);
}

#[test]
fn test_page_of_one() {
    let rows = hundred_rows();
    let products = products_page(&rows, Some(1), Some(1)).unwrap();
    assert_eq!(products.len(), 1);
}

#[test]
fn test_very_negative_page_returns_first_page() {
    let rows = hundred_rows();
    for limit in [None, Some(1), Some(10), Some(50)] {
        let products = products_page(&rows, Some(-1000), limit).unwrap();
        assert_eq!(products[0].id, 1);
    }
}

#[test]
fn test_empty_collection_yields_empty_result() {
    let rows: Vec<Vec<(String, ColValue)>> = Vec::new();
    let products = products_page(&rows, None, None).unwrap();
    assert!(products.is_empty());
}

#[test]
fn test_oversized_limit_falls_back_to_ten() {
    let rows = hundred_rows();
    let products = products_page(&rows, Some(1), Some(999)).unwrap();
    assert_eq!(products.len(), 10);
}

#[test]
fn test_huge_page_clamps_to_last_page() {
    let rows = hundred_rows();
    let products = products_page(&rows, Some(999999), Some(10)).unwrap();
    assert_eq!(products.len(), 10);
    let ids: Vec<i32> = products.iter().map(|p| p.id).collect();
    assert_eq!(ids, (91..=100).collect::<Vec<i32>>());
}

#[test]
fn test_products_carry_their_columns() {
    let rows = hundred_rows();
    let products = products_page(&rows, Some(2), Some(5)).unwrap();
    assert_eq!(products.len(), 5);
    assert_eq!(products[0].id, 6);
    assert_eq!(products[0].uid, "6-128");
    assert_eq!(products[0].category, "Computers");
    assert_eq!(products[0].cost, "1178.99");
    assert_eq!(products[0].review_count, 2);
    assert_eq!(products[0].review_stars, 1);
}
