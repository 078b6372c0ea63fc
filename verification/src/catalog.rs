//! Fetch orchestration over the product collection: resolve the window,
//! take the rows it covers, and map each one, in order.

use crate::models::MapError;
use crate::models::Product;
use crate::models::ProductView;
use crate::models::map_row;
use crate::models::spec_map_row;
use crate::pagination::MAX_LIMIT;
use crate::pagination::last_page;
use crate::pagination::resolve;
use crate::pagination::resolved_window;
use crate::values::ColValue;
use vstd::prelude::*;

verus! {

/// The mathematical values of a sequence of products.
pub open spec fn products_view(ps: Seq<Product>) -> Seq<ProductView> {
    ps.map_values(|p: Product| p@)
}

/// What mapping a sequence of rows must yield: every row mapped in order,
/// or the error of the first row that fails.
pub open spec fn spec_map_rows(rows: Seq<Vec<(String, ColValue)>>) -> Result<
    Seq<ProductView>,
    MapError,
>
    decreases rows.len(),
{
    if rows.len() == 0 {
        Ok(Seq::empty())
    } else {
        match spec_map_row(rows[0]@) {
            Err(e) => Err(e),
            Ok(v) => match spec_map_rows(rows.drop_first()) {
                Err(e) => Err(e),
                Ok(rest) => Ok(seq![v] + rest),
            },
        }
    }
}

/// How one more row extends the result of mapping the rows before it.
spec fn map_rows_snoc(
    prev: Result<Seq<ProductView>, MapError>,
    row: Vec<(String, ColValue)>,
) -> Result<Seq<ProductView>, MapError> {
    match prev {
        Err(e) => Err(e),
        Ok(vs) => match spec_map_row(row@) {
            Err(e) => Err(e),
            Ok(v) => Ok(vs.push(v)),
        },
    }
}

/// Mapping a sequence with one row appended extends the mapping of the
/// sequence by that row.
proof fn lemma_map_rows_snoc(rows: Seq<Vec<(String, ColValue)>>, last: Vec<(String, ColValue)>)
    ensures
        spec_map_rows(rows.push(last)) == map_rows_snoc(spec_map_rows(rows), last),
    decreases rows.len(),
{
    let whole = rows.push(last);
    assert(whole.len() == rows.len() + 1);
    if rows.len() == 0 {
        assert(whole[0] == last);
        assert(rows =~= Seq::<Vec<(String, ColValue)>>::empty());
        assert(whole.drop_first() =~= Seq::<Vec<(String, ColValue)>>::empty());
        assert(spec_map_rows(Seq::<Vec<(String, ColValue)>>::empty()) == Ok::<
            Seq<ProductView>,
            MapError,
        >(Seq::empty()));
        match spec_map_row(last@) {
            Err(e) => {},
            Ok(v) => {
                assert(seq![v] + Seq::<ProductView>::empty() =~= Seq::<
                    ProductView,
                >::empty().push(v));
            },
        }
    } else {
        assert(whole[0] == rows[0]);
        assert(whole.drop_first() =~= rows.drop_first().push(last));
        lemma_map_rows_snoc(rows.drop_first(), last);
        match spec_map_row(rows[0]@) {
            Err(e) => {},
            Ok(v) => {
                match spec_map_rows(rows.drop_first()) {
                    Err(e) => {},
                    Ok(rest) => {
                        match spec_map_row(last@) {
                            Err(e) => {},
                            Ok(w) => {
                                assert(seq![v] + rest.push(w) =~= (seq![v] + rest).push(w));
                            },
                        }
                    },
                }
            },
        }
    }
}

/// When every row before position `i` maps and row `i` fails, the whole
/// sequence fails with that row's error.
proof fn lemma_map_rows_prefix_err(rows: Seq<Vec<(String, ColValue)>>, i: int, e: MapError)
    requires
        0 <= i < rows.len(),
        spec_map_rows(rows.subrange(0, i)) is Ok,
        spec_map_row(rows[i]@) == Err::<ProductView, MapError>(e),
    ensures
        spec_map_rows(rows) == Err::<Seq<ProductView>, MapError>(e),
    decreases i,
{
    if i == 0 {
    } else {
        let pre = rows.subrange(0, i);
        assert(pre[0] == rows[0]);
        assert(pre.drop_first() =~= rows.drop_first().subrange(0, i - 1));
        assert(rows.drop_first()[i - 1] == rows[i]);
        lemma_map_rows_prefix_err(rows.drop_first(), i - 1, e);
    }
}

/// Maps the rows at positions `start` up to `end`, in order.
fn map_row_range(rows: &Vec<Vec<(String, ColValue)>>, start: usize, end: usize) -> (r: Result<
    Vec<Product>,
    MapError,
>)
    requires
        start <= end <= rows@.len(),
    ensures
        ({
            let s = spec_map_rows(rows@.subrange(start as int, end as int));
            match r {
                Ok(ps) => {
                    &&& s == Ok::<Seq<ProductView>, MapError>(products_view(ps@))
                    &&& ps@.len() == end - start
                    &&& forall|i: int|
                        0 <= i < ps@.len() ==> spec_map_row(rows@[start + i]@) == Ok::<
                            ProductView,
                            MapError,
                        >((#[trigger] ps@[i])@)
                },
                Err(e) => s == Err::<Seq<ProductView>, MapError>(e),
            }
        }),
{
    let mut out: Vec<Product> = Vec::new();
    let mut i: usize = start;
    proof {
        assert(rows@.subrange(start as int, start as int) =~= Seq::<Vec<(String, ColValue)>>::empty());
        assert(products_view(out@) =~= Seq::<ProductView>::empty());
    }
    while i < end
        invariant
            start <= i <= end <= rows@.len(),
            out@.len() == i - start,
            spec_map_rows(rows@.subrange(start as int, i as int)) == Ok::<
                Seq<ProductView>,
                MapError,
            >(products_view(out@)),
            forall|k: int|
                0 <= k < out@.len() ==> spec_map_row(rows@[start + k]@) == Ok::<
                    ProductView,
                    MapError,
                >((#[trigger] out@[k])@),
        decreases end - i,
    {
        match map_row(&rows[i]) {
            Err(e) => {
                proof {
                    let sub = rows@.subrange(start as int, end as int);
                    assert(sub.subrange(0, i - start) =~= rows@.subrange(start as int, i as int));
                    assert(sub[i - start] == rows@[i as int]);
                    lemma_map_rows_prefix_err(sub, i - start, e);
                }
                return Err(e);
            },
            Ok(p) => {
                proof {
                    let sub_i = rows@.subrange(start as int, i as int);
                    assert(rows@.subrange(start as int, i + 1) =~= sub_i.push(rows@[i as int]));
                    lemma_map_rows_snoc(sub_i, rows@[i as int]);
                    assert(products_view(out@.push(p)) =~= products_view(out@).push(p@));
                }
                out.push(p);
                i = i + 1;
            },
        }
    }
    Ok(out)
}

/// Maps every fetched row to a product, in the order the store returned
/// them: the i-th product always comes from the i-th row, so the output
/// order matches the fetch order. The first row whose numeric text fails
/// to parse aborts the whole pass with its error.
pub fn map_rows(rows: &Vec<Vec<(String, ColValue)>>) -> (r: Result<Vec<Product>, MapError>)
    ensures
        ({
            let s = spec_map_rows(rows@);
            match r {
                Ok(ps) => {
                    &&& s == Ok::<Seq<ProductView>, MapError>(products_view(ps@))
                    &&& ps@.len() == rows@.len()
                    &&& forall|i: int|
                        0 <= i < ps@.len() ==> spec_map_row(rows@[i]@) == Ok::<ProductView, MapError>(
                            (#[trigger] ps@[i])@,
                        )
                },
                Err(e) => s == Err::<Seq<ProductView>, MapError>(e),
            }
        }),
{
    proof {
        assert(rows@.subrange(0, rows@.len() as int) =~= rows@);
    }
    map_row_range(rows, 0, rows.len())
}

/// The rows a resolved window covers: none for an empty collection,
/// otherwise the rows from `offset`, at most `effective_limit` of them.
pub open spec fn spec_window_rows(
    rows: Seq<Vec<(String, ColValue)>>,
    page: Option<i32>,
    limit: Option<i32>,
) -> Seq<Vec<(String, ColValue)>> {
    match resolved_window(page, limit, rows.len() as int) {
        None => Seq::empty(),
        Some(w) => {
            let end = if w.offset + w.effective_limit <= rows.len() {
                w.offset + w.effective_limit
            } else {
                rows.len() as int
            };
            rows.subrange(w.offset as int, end)
        },
    }
}

/// Serves one request over the collection held in memory: resolves the
/// window from the untrusted parameters and the row count, takes the rows
/// the window covers, and maps each one in order. An empty collection
/// yields an empty result whatever the parameters ask for.
pub fn products_page(
    rows: &Vec<Vec<(String, ColValue)>>,
    page: Option<i32>,
    limit: Option<i32>,
) -> (r: Result<Vec<Product>, MapError>)
    requires
        rows@.len() <= i32::MAX,
    ensures
        ({
            let s = spec_map_rows(spec_window_rows(rows@, page, limit));
            match r {
                Ok(ps) => s == Ok::<Seq<ProductView>, MapError>(products_view(ps@)),
                Err(e) => s == Err::<Seq<ProductView>, MapError>(e),
            }
        }),
        rows@.len() == 0 ==> (r matches Ok(ps) && ps@.len() == 0),
        r matches Ok(ps) ==> ps@.len() == spec_window_rows(rows@, page, limit).len(),
        ({
            let w = resolved_window(page, limit, rows@.len() as int);
            w matches Some(win) ==> (r matches Ok(ps) ==> ps@.len() == (
            if win.offset + win.effective_limit <= rows@.len() {
                win.effective_limit as int
            } else {
                rows@.len() - win.offset
            }))
        }),
{
    let total: i32 = rows.len() as i32;
    match resolve(page, limit, total) {
        None => {
            let empty: Vec<Product> = Vec::new();
            proof {
                assert(products_view(empty@) =~= Seq::<ProductView>::empty());
            }
            Ok(empty)
        },
        Some(w) => {
            let start: usize = w.offset as usize;
            let span: usize = w.effective_limit as usize;
            let end: usize = if start + span <= rows.len() {
                start + span
            } else {
                rows.len()
            };
            map_row_range(rows, start, end)
        },
    }
}

/// Result length on a fully covered page: when the requested page lies
/// within `[1, last_page]` and the limit within `(0, MAX_LIMIT]`, the
/// window spans exactly `limit` rows. The general result length is
/// `min(limit, rows remaining past the offset)`; on such a page at least
/// `limit` rows remain, so the minimum is `limit` itself.
pub proof fn lemma_full_page_length(rows: Seq<Vec<(String, ColValue)>>, page: i32, limit: i32)
    requires
        0 < rows.len() <= i32::MAX,
        1 <= limit <= MAX_LIMIT,
        1 <= page <= last_page(rows.len() as int, limit as int),
    ensures
        rows.len() - (page - 1) * limit >= limit,
        spec_window_rows(rows, Some(page), Some(limit)).len() == limit,
{
    let total = rows.len() as int;
    let p = page as int;
    let l = limit as int;
    vstd::arithmetic::mul::lemma_mul_inequality(p, total / l, l);
    vstd::arithmetic::div_mod::lemma_fundamental_div_mod(total, l);
    vstd::arithmetic::div_mod::lemma_mod_bound(total, l);
    assert(p * l <= total);
    assert((p - 1) * l == p * l - l) by {
        vstd::arithmetic::mul::lemma_mul_is_distributive_sub_other_way(l, p, 1);
    }
    let w = resolved_window(Some(page), Some(limit), total)->Some_0;
    assert(w.offset == (p - 1) * l);
    assert(w.effective_limit == l);
    assert(w.offset + w.effective_limit <= rows.len());
}

} // verus!
