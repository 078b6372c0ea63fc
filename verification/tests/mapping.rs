use product_catalog::catalog::map_rows;
use product_catalog::models::MapError;
use product_catalog::models::Product;
use product_catalog::models::map_row;
use product_catalog::models::product_to_row;
use product_catalog::numbers::format_i64;
use product_catalog::numbers::parse_i32;
use product_catalog::numbers::parse_u32;
use product_catalog::values::ColValue;
use product_catalog::values::value_into_string;

fn sample_product() -> Product {
    Product {
        id: 518,
        uid: String::from("518-128"),
        category: String::from("Computers"),
        sub_category: String::from("Laptops"),
        name: String::from("ThinkPad T540p"),
        origin: String::from("https://www.webscraper.io/test-sites/e-commerce/static/product/518"),
        cost: String::from("1178.989990234375"),
        description: String::from("15.6\", Core i5-4200M, 4GB, 500GB, Win7 Pro 64bit"),
        color: String::from(""),
        size: String::from("128"),
        review_count: 2,
        review_stars: 1,
    }
}

#[test]
fn test_value_into_string_integer() {
    assert_eq!(value_into_string(ColValue::Integer(42)), "42");
    assert_eq!(value_into_string(ColValue::Integer(0)), "0");
    assert_eq!(value_into_string(ColValue::Integer(-7)), "-7");
    assert_eq!(
        value_into_string(ColValue::Integer(i64::MIN)),
        "-9223372036854775808"
    );
}

#[test]
fn test_value_into_string_real_and_text() {
    assert_eq!(
        value_into_string(ColValue::Real(String::from("1178.99"))),
        "1178.99"
    );
    assert_eq!(
        value_into_string(ColValue::Text(String::from("Laptops"))),
        "Laptops"
    );
}

#[test]
fn test_value_into_string_null_is_empty() {
    assert_eq!(value_into_string(ColValue::Null), "");
}

#[test]
fn test_format_i64_canonical() {
    assert_eq!(format_i64(0), "0");
    assert_eq!(format_i64(500), "500");
    assert_eq!(format_i64(-1), "-1");
    assert_eq!(format_i64(i64::MAX), "9223372036854775807");
}

#[test]
fn test_parse_i32_accepts_decimal() {
    assert_eq!(parse_i32("500"), Some(500));
    assert_eq!(parse_i32("+5"), Some(5));
    assert_eq!(parse_i32("-0"), Some(0));
    assert_eq!(parse_i32("-2147483648"), Some(i32::MIN));
    assert_eq!(parse_i32("2147483647"), Some(i32::MAX));
}

#[test]
fn test_parse_i32_rejects_malformed_or_overflowing() {
    assert_eq!(parse_i32(""), None);
    assert_eq!(parse_i32("-"), None);
    assert_eq!(parse_i32("12a"), None);
    assert_eq!(parse_i32(" 5"), None);
    assert_eq!(parse_i32("2147483648"), None);
    assert_eq!(parse_i32("99999999999999999999"), None);
}

#[test]
fn test_parse_u32_sign_handling() {
    assert_eq!(parse_u32("4294967295"), Some(u32::MAX));
    assert_eq!(parse_u32("4294967296"), None);
    assert_eq!(parse_u32("+3"), Some(3));
    assert_eq!(parse_u32("-0"), Some(0));
    assert_eq!(parse_u32("-1"), None);
}

#[test]
fn test_map_row_empty_row_is_all_default() {
    let row: Vec<(String, ColValue)> = Vec::new();
    let p = map_row(&row).unwrap();
    assert_eq!(p, Product::default());
}

#[test]
fn test_map_row_unknown_columns_ignored() {
    let row = vec![
        (String::from("id"), ColValue::Integer(3)),
        (String::from("warehouse"), ColValue::Text(String::from("north"))),
    ];
    let p = map_row(&row).unwrap();
    assert_eq!(p.id, 3);
    assert_eq!(p.uid, "");
}

#[test]
fn test_map_row_coerces_across_types() {
    // An integer field delivered as text, and text fields delivered as
    // integer or real values, all go through the same textual coercion.
    let row = vec![
        (String::from("id"), ColValue::Text(String::from("7"))),
        (String::from("uid"), ColValue::Integer(99)),
        (String::from("size"), ColValue::Real(String::from("1.5"))),
        (String::from("description"), ColValue::Null),
        (String::from("review_count"), ColValue::Integer(12)),
    ];
    let p = map_row(&row).unwrap();
    assert_eq!(p.id, 7);
    assert_eq!(p.uid, "99");
    assert_eq!(p.size, "1.5");
    assert_eq!(p.description, "");
    assert_eq!(p.review_count, 12);
}

#[test]
fn test_map_row_first_occurrence_wins() {
    let row = vec![
        (String::from("id"), ColValue::Integer(1)),
        (String::from("id"), ColValue::Integer(2)),
        (String::from("color"), ColValue::Text(String::from("red"))),
        (String::from("color"), ColValue::Text(String::from("blue"))),
    ];
    let p = map_row(&row).unwrap();
    assert_eq!(p.id, 1);
    assert_eq!(p.color, "red");
}

#[test]
fn test_map_row_bad_id() {
    let row = vec![(String::from("id"), ColValue::Text(String::from("abc")))];
    assert_eq!(map_row(&row), Err(MapError::BadId));
}

#[test]
fn test_map_row_bad_review_count() {
    let row = vec![
        (String::from("id"), ColValue::Integer(1)),
        (String::from("review_count"), ColValue::Text(String::from("many"))),
    ];
    assert_eq!(map_row(&row), Err(MapError::BadReviewCount));
}

#[test]
fn test_map_row_bad_review_stars() {
    let row = vec![
        (String::from("id"), ColValue::Integer(1)),
        (String::from("review_stars"), ColValue::Text(String::from("-2.5"))),
    ];
    assert_eq!(map_row(&row), Err(MapError::BadReviewStars));
}

#[test]
fn test_map_row_round_trip() {
    let p = sample_product();
    let row = product_to_row(&p);
    let mapped = map_row(&row).unwrap();
    assert_eq!(mapped, p);
}

#[test]
fn test_map_rows_preserves_order() {
    let ids = [10i64, 2, 7, 2, 40];
    let rows: Vec<Vec<(String, ColValue)>> = ids
        .iter()
        .map(|i| vec![(String::from("id"), ColValue::Integer(*i))])
        .collect();
    let products = map_rows(&rows).unwrap();
    assert_eq!(products.len(), 5);
    for (k, i) in ids.iter().enumerate() {
        assert_eq!(products[k].id as i64, *i);
    }
}

#[test]
fn test_map_rows_reports_first_error() {
    let rows = vec![
        vec![(String::from("id"), ColValue::Integer(1))],
        vec![(String::from("id"), ColValue::Text(String::from("x")))],
        vec![(String::from("review_stars"), ColValue::Text(String::from("y")))],
    ];
    assert_eq!(map_rows(&rows), Err(MapError::BadId));
}
