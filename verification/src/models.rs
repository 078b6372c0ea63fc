//! The product record and the row mapper that builds one from a store
//! row's column/value pairs.

use crate::numbers::parse_i32;
use crate::numbers::parse_u32;
use crate::numbers::parsed_i32;
use crate::numbers::parsed_u32;
use crate::values::ColValue;
use crate::values::spec_value_text;
use crate::values::value_text;
use vstd::prelude::*;
use vstd::string::StrSliceExecFns;
use vstd::string::StringExecFns;

verus! {

/// A single catalog entry. Every field has a deterministic default (zero
/// or the empty string), so no field is ever left uninitialized. The cost
/// is carried as its decimal text: real-number arithmetic stays outside
/// the library, and the boundary that serializes a product turns the text
/// into a number.
#[derive(Clone, Debug, PartialEq)]
pub struct Product {
    pub id: i32,
    pub uid: String,
    pub category: String,
    pub sub_category: String,
    pub name: String,
    pub origin: String,
    pub cost: String,
    pub description: String,
    pub color: String,
    pub size: String,
    pub review_count: u32,
    pub review_stars: u32,
}

/// The mathematical value of a product: integers as `int`, text as
/// character sequences.
#[verifier::ext_equal]
pub struct ProductView {
    pub id: int,
    pub uid: Seq<char>,
    pub category: Seq<char>,
    pub sub_category: Seq<char>,
    pub name: Seq<char>,
    pub origin: Seq<char>,
    pub cost: Seq<char>,
    pub description: Seq<char>,
    pub color: Seq<char>,
    pub size: Seq<char>,
    pub review_count: int,
    pub review_stars: int,
}

impl View for Product {
    type V = ProductView;

    open spec fn view(&self) -> ProductView {
        ProductView {
            id: self.id as int,
            uid: self.uid@,
            category: self.category@,
            sub_category: self.sub_category@,
            name: self.name@,
            origin: self.origin@,
            cost: self.cost@,
            description: self.description@,
            color: self.color@,
            size: self.size@,
            review_count: self.review_count as int,
            review_stars: self.review_stars as int,
        }
    }
}

/// The all-default product: zero for the numeric fields, empty text for
/// the rest.
pub open spec fn default_product_view() -> ProductView {
    ProductView {
        id: 0,
        uid: Seq::empty(),
        category: Seq::empty(),
        sub_category: Seq::empty(),
        name: Seq::empty(),
        origin: Seq::empty(),
        cost: Seq::empty(),
        description: Seq::empty(),
        color: Seq::empty(),
        size: Seq::empty(),
        review_count: 0,
        review_stars: 0,
    }
}

impl Default for Product {
    /// The all-default product record.
    fn default() -> (p: Product)
        ensures
            p@ == default_product_view(),
    {
        let p = Product {
            id: 0,
            uid: String::new(),
            category: String::new(),
            sub_category: String::new(),
            name: String::new(),
            origin: String::new(),
            cost: String::new(),
            description: String::new(),
            color: String::new(),
            size: String::new(),
            review_count: 0,
            review_stars: 0,
        };
        proof {
            assert(p@ =~= default_product_view());
        }
        p
    }
}

/// The numeric column whose text failed to parse, aborting the mapping of
/// its row.
#[derive(Clone, Copy, Debug, PartialEq, Eq, Structural)]
pub enum MapError {
    BadId,
    BadReviewCount,
    BadReviewStars,
}

/// The first value stored under `name` in the row, if any. Unknown
/// column names are simply never looked up, so they are ignored.
pub open spec fn row_lookup(row: Seq<(String, ColValue)>, name: Seq<char>) -> Option<ColValue>
    decreases row.len(),
{
    if row.len() == 0 {
        None
    } else if row[0].0@ == name {
        Some(row[0].1)
    } else {
        row_lookup(row.drop_first(), name)
    }
}

/// The coerced text of the column stored under `name`, if present.
pub open spec fn column_text(row: Seq<(String, ColValue)>, name: Seq<char>) -> Option<Seq<char>> {
    match row_lookup(row, name) {
        Some(v) => Some(spec_value_text(v)),
        None => None,
    }
}

/// A text field: the column's coerced text, or empty when absent.
pub open spec fn spec_text_field(row: Seq<(String, ColValue)>, name: Seq<char>) -> Seq<char> {
    match column_text(row, name) {
        None => Seq::empty(),
        Some(t) => t,
    }
}

/// An `i32` field: zero when the column is absent, `None` when its text
/// does not parse.
pub open spec fn spec_i32_field(row: Seq<(String, ColValue)>, name: Seq<char>) -> Option<i32> {
    match column_text(row, name) {
        None => Some(0),
        Some(t) => parsed_i32(t),
    }
}

/// A `u32` field: zero when the column is absent, `None` when its text
/// does not parse.
pub open spec fn spec_u32_field(row: Seq<(String, ColValue)>, name: Seq<char>) -> Option<u32> {
    match column_text(row, name) {
        None => Some(0),
        Some(t) => parsed_u32(t),
    }
}

/// What mapping a row must yield: a fully populated product, or the first
/// numeric column (in field order) whose text fails to parse.
pub open spec fn spec_map_row(row: Seq<(String, ColValue)>) -> Result<ProductView, MapError> {
    if spec_i32_field(row, "id"@) is None {
        Err(MapError::BadId)
    } else if spec_u32_field(row, "review_count"@) is None {
        Err(MapError::BadReviewCount)
    } else if spec_u32_field(row, "review_stars"@) is None {
        Err(MapError::BadReviewStars)
    } else {
        Ok(
            ProductView {
                id: spec_i32_field(row, "id"@)->Some_0 as int,
                uid: spec_text_field(row, "uid"@),
                category: spec_text_field(row, "category"@),
                sub_category: spec_text_field(row, "sub_category"@),
                name: spec_text_field(row, "name"@),
                origin: spec_text_field(row, "origin"@),
                cost: spec_text_field(row, "cost"@),
                description: spec_text_field(row, "description"@),
                color: spec_text_field(row, "color"@),
                size: spec_text_field(row, "size"@),
                review_count: spec_u32_field(row, "review_count"@)->Some_0 as int,
                review_stars: spec_u32_field(row, "review_stars"@)->Some_0 as int,
            },
        )
    }
}

/// Character-by-character string equality.
fn str_eq(a: &str, b: &str) -> (r: bool)
    ensures
        r == (a@ == b@),
{
    let alen = a.unicode_len();
    let blen = b.unicode_len();
    if alen != blen {
        return false;
    }
    let mut i: usize = 0;
    while i < alen
        invariant
            i <= alen,
            alen == a@.len(),
            alen == b@.len(),
            forall|j: int| 0 <= j < i ==> a@[j] == b@[j],
        decreases alen - i,
    {
        if a.get_char(i) != b.get_char(i) {
            return false;
        }
        i = i + 1;
    }
    proof {
        assert(a@ =~= b@);
    }
    true
}

/// Finds the first column stored under `name`.
fn find_column<'a>(row: &'a Vec<(String, ColValue)>, name: &str) -> (r: Option<&'a ColValue>)
    ensures
        match r {
            Some(v) => row_lookup(row@, name@) == Some(*v),
            None => row_lookup(row@, name@) is None,
        },
{
    proof {
        assert(row@.skip(0) =~= row@);
    }
    let mut i: usize = 0;
    while i < row.len()
        invariant
            i <= row@.len(),
            row_lookup(row@, name@) == row_lookup(row@.skip(i as int), name@),
        decreases row@.len() - i,
    {
        let pair = &row[i];
        proof {
            assert(row@.skip(i as int)[0] == row@[i as int]);
        }
        if str_eq(pair.0.as_str(), name) {
            return Some(&pair.1);
        }
        proof {
            assert(row@.skip(i as int).drop_first() =~= row@.skip(i + 1));
        }
        i = i + 1;
    }
    None
}

/// Reads a text field: the coerced column text, or empty when absent.
fn text_field(row: &Vec<(String, ColValue)>, name: &str) -> (s: String)
    ensures
        s@ == spec_text_field(row@, name@),
{
    match find_column(row, name) {
        Some(v) => value_text(v),
        None => String::new(),
    }
}

/// Reads an `i32` field: zero when absent, `None` when unparsable.
fn i32_field(row: &Vec<(String, ColValue)>, name: &str) -> (r: Option<i32>)
    ensures
        r == spec_i32_field(row@, name@),
{
    match find_column(row, name) {
        None => Some(0),
        Some(v) => {
            let t = value_text(v);
            parse_i32(t.as_str())
        },
    }
}

/// Reads a `u32` field: zero when absent, `None` when unparsable.
fn u32_field(row: &Vec<(String, ColValue)>, name: &str) -> (r: Option<u32>)
    ensures
        r == spec_u32_field(row@, name@),
{
    match find_column(row, name) {
        None => Some(0),
        Some(v) => {
            let t = value_text(v);
            parse_u32(t.as_str())
        },
    }
}

/// Maps one store row to a product: starts from the all-default record,
/// fills each known column through the shared textual coercion, ignores
/// unknown columns, and reports the first numeric column whose text does
/// not parse. The whole row is rejected in that case: no partial record
/// is returned.
pub fn map_row(row: &Vec<(String, ColValue)>) -> (r: Result<Product, MapError>)
    ensures
        ({
            let s = spec_map_row(row@);
            match r {
                Ok(p) => s matches Ok(v) && p@ == v,
                Err(e) => s matches Err(e2) && e2 == e,
            }
        }),
{
    let id = match i32_field(row, "id") {
        Some(v) => v,
        None => {
            return Err(MapError::BadId);
        },
    };
    let review_count = match u32_field(row, "review_count") {
        Some(v) => v,
        None => {
            return Err(MapError::BadReviewCount);
        },
    };
    let review_stars = match u32_field(row, "review_stars") {
        Some(v) => v,
        None => {
            return Err(MapError::BadReviewStars);
        },
    };
    let p = Product {
        id,
        uid: text_field(row, "uid"),
        category: text_field(row, "category"),
        sub_category: text_field(row, "sub_category"),
        name: text_field(row, "name"),
        origin: text_field(row, "origin"),
        cost: text_field(row, "cost"),
        description: text_field(row, "description"),
        color: text_field(row, "color"),
        size: text_field(row, "size"),
        review_count,
        review_stars,
    };
    proof {
        assert(p@ =~= spec_map_row(row@)->Ok_0);
    }
    Ok(p)
}

/// `row` is the row built from the field values of `p`: each column under
/// its own name, integers as integer values, the cost as a real-number
/// value, the other text fields as text values.
pub open spec fn is_row_of(row: Seq<(String, ColValue)>, p: Product) -> bool {
    &&& row.len() == 12
    &&& row[0].0@ == "id"@ && row[0].1 == ColValue::Integer(p.id as i64)
    &&& row[1].0@ == "uid"@ && row[1].1 == ColValue::Text(p.uid)
    &&& row[2].0@ == "category"@ && row[2].1 == ColValue::Text(p.category)
    &&& row[3].0@ == "sub_category"@ && row[3].1 == ColValue::Text(p.sub_category)
    &&& row[4].0@ == "name"@ && row[4].1 == ColValue::Text(p.name)
    &&& row[5].0@ == "origin"@ && row[5].1 == ColValue::Text(p.origin)
    &&& row[6].0@ == "cost"@ && row[6].1 == ColValue::Real(p.cost)
    &&& row[7].0@ == "description"@ && row[7].1 == ColValue::Text(p.description)
    &&& row[8].0@ == "color"@ && row[8].1 == ColValue::Text(p.color)
    &&& row[9].0@ == "size"@ && row[9].1 == ColValue::Text(p.size)
    &&& row[10].0@ == "review_count"@ && row[10].1 == ColValue::Integer(p.review_count as i64)
    &&& row[11].0@ == "review_stars"@ && row[11].1 == ColValue::Integer(p.review_stars as i64)
}

/// Builds the row a store would return for `p`, column for column.
pub fn product_to_row(p: &Product) -> (row: Vec<(String, ColValue)>)
    ensures
        is_row_of(row@, *p),
{
    let mut row: Vec<(String, ColValue)> = Vec::new();
    row.push((String::from_str("id"), ColValue::Integer(p.id as i64)));
    row.push((String::from_str("uid"), ColValue::Text(p.uid.clone())));
    row.push((String::from_str("category"), ColValue::Text(p.category.clone())));
    row.push((String::from_str("sub_category"), ColValue::Text(p.sub_category.clone())));
    row.push((String::from_str("name"), ColValue::Text(p.name.clone())));
    row.push((String::from_str("origin"), ColValue::Text(p.origin.clone())));
    row.push((String::from_str("cost"), ColValue::Real(p.cost.clone())));
    row.push((String::from_str("description"), ColValue::Text(p.description.clone())));
    row.push((String::from_str("color"), ColValue::Text(p.color.clone())));
    row.push((String::from_str("size"), ColValue::Text(p.size.clone())));
    row.push((String::from_str("review_count"), ColValue::Integer(p.review_count as i64)));
    row.push((String::from_str("review_stars"), ColValue::Integer(p.review_stars as i64)));
    row
}

/// Round trip: mapping the row built from a product's field values
/// reproduces an equal product, whatever the product holds.
#[verifier::rlimit(100)]
pub proof fn lemma_map_round_trip(p: Product, row: Seq<(String, ColValue)>)
    requires
        is_row_of(row, p),
    ensures
        spec_map_row(row) == Ok::<ProductView, MapError>(p@),
{
    reveal_strlit("id");
    reveal_strlit("uid");
    reveal_strlit("category");
    reveal_strlit("sub_category");
    reveal_strlit("name");
    reveal_strlit("origin");
    reveal_strlit("cost");
    reveal_strlit("description");
    reveal_strlit("color");
    reveal_strlit("size");
    reveal_strlit("review_count");
    reveal_strlit("review_stars");
    assert("id"@.len() == 2);
    assert("uid"@.len() == 3);
    assert("category"@.len() == 8);
    assert("sub_category"@.len() == 12);
    assert("name"@.len() == 4);
    assert("origin"@.len() == 6);
    assert("cost"@.len() == 4);
    assert("description"@.len() == 11);
    assert("color"@.len() == 5);
    assert("size"@.len() == 4);
    assert("review_count"@.len() == 12);
    assert("review_stars"@.len() == 12);
    assert("name"@[0] == 'n' && "cost"@[0] == 'c' && "size"@[0] == 's');
    assert("sub_category"@[0] == 's' && "review_count"@[0] == 'r' && "review_stars"@[0] == 'r');
    assert("review_count"@[7] == 'c' && "review_stars"@[7] == 's');
    reveal_with_fuel(row_lookup, 14);
    assert(row_lookup(row, "id"@) == Some(row[0].1));
    assert(row_lookup(row, "uid"@) == Some(row[1].1));
    assert(row_lookup(row, "category"@) == Some(row[2].1));
    assert(row_lookup(row, "sub_category"@) == Some(row[3].1));
    assert(row_lookup(row, "name"@) == Some(row[4].1));
    assert(row_lookup(row, "origin"@) == Some(row[5].1));
    assert(row_lookup(row, "cost"@) == Some(row[6].1));
    assert(row_lookup(row, "description"@) == Some(row[7].1));
    assert(row_lookup(row, "color"@) == Some(row[8].1));
    assert(row_lookup(row, "size"@) == Some(row[9].1));
    assert(row_lookup(row, "review_count"@) == Some(row[10].1));
    assert(row_lookup(row, "review_stars"@) == Some(row[11].1));
    crate::numbers::lemma_parsed_i32_round_trip(p.id);
    crate::numbers::lemma_parsed_u32_round_trip(p.review_count);
    crate::numbers::lemma_parsed_u32_round_trip(p.review_stars);
    assert(spec_map_row(row) is Ok);
    assert(spec_map_row(row)->Ok_0 =~= p@);
}

} // verus!
