//! Pagination resolver: turns untrusted page/limit query parameters and a
//! total row count into a validated window over the product collection.

use vstd::prelude::*;

verus! {

/// Page number used when the request names none, or a non-positive one.
pub const DEFAULT_PAGE: i32 = 1;

/// Page size used when the request names none, or one outside `(0, MAX_LIMIT]`.
pub const DEFAULT_LIMIT: i32 = 10;

/// Largest page size a request may ask for.
pub const MAX_LIMIT: i32 = 50;

/// Raw pagination query parameters, exactly as the request carried them.
/// Both are optional and untrusted; `resolve` normalizes them.
#[derive(Clone, Copy, Debug, PartialEq, Eq)]
pub struct Pagination {
    pub page: Option<i32>,
    pub limit: Option<i32>,
}

/// A validated window over the product collection, computed once per
/// request. `offset` is the number of rows the fetch must skip and
/// `effective_limit` the number of rows it may take; `fetch_count` is the
/// cumulative number of rows covered through this page
/// (`effective_page * effective_limit == offset + effective_limit`).
#[derive(Clone, Copy, Debug, PartialEq, Eq)]
pub struct PageWindow {
    pub effective_page: i32,
    pub effective_limit: i32,
    pub offset: i32,
    pub fetch_count: i32,
}

/// The page size that takes effect: a missing or out-of-range request
/// (non-positive or above `MAX_LIMIT`) silently falls back to the default.
pub open spec fn clamped_limit(requested: Option<i32>) -> int {
    match requested {
        None => DEFAULT_LIMIT as int,
        Some(l) => if l <= 0 || l > MAX_LIMIT {
            DEFAULT_LIMIT as int
        } else {
            l as int
        },
    }
}

/// Index of the last full page: the integer floor of `total_rows / limit`.
/// Note this is not the conventional ceiling-based page count; when
/// `total_rows < limit` it is zero.
pub open spec fn last_page(total_rows: int, limit: int) -> int
    recommends
        limit > 0,
{
    total_rows / limit
}

/// The page number that takes effect: a missing or non-positive request
/// becomes the first page; one beyond the last full page is pulled back to
/// it. When the collection is shorter than one page, `last` is zero and no
/// page index is valid, so the request lands on page one, whose window
/// still covers every row there is.
pub open spec fn clamped_page(requested: Option<i32>, last: int) -> int {
    let p = match requested {
        None => DEFAULT_PAGE as int,
        Some(p) => p as int,
    };
    if p <= 0 {
        DEFAULT_PAGE as int
    } else if p > last {
        if last < 1 {
            1
        } else {
            last
        }
    } else {
        p
    }
}

/// The window that `resolve` must return: `None` marks an empty collection
/// (zero rows come back, nothing else is computed), otherwise the clamped
/// page/limit pair together with the skip count and the cumulative fetch
/// count.
pub open spec fn resolved_window(
    page: Option<i32>,
    limit: Option<i32>,
    total_rows: int,
) -> Option<PageWindow> {
    if total_rows <= 0 {
        None
    } else {
        let l = clamped_limit(limit);
        let p = clamped_page(page, last_page(total_rows, l));
        Some(
            PageWindow {
                effective_page: p as i32,
                effective_limit: l as i32,
                offset: ((p - 1) * l) as i32,
                fetch_count: (p * l) as i32,
            },
        )
    }
}

/// Normalizes untrusted pagination input against the total row count.
///
/// No input is ever rejected: out-of-range values are silently replaced.
/// The returned window always starts strictly before the end of the
/// collection, so a fetch honoring it returns at least one row.
pub fn resolve(page: Option<i32>, limit: Option<i32>, total_rows: i32) -> (w: Option<PageWindow>)
    requires
        total_rows >= 0,
    ensures
        w == resolved_window(page, limit, total_rows as int),
        w is None <==> total_rows == 0,
        w matches Some(win) ==> {
            &&& 0 < win.effective_limit <= MAX_LIMIT
            &&& win.effective_limit == clamped_limit(limit)
            &&& 1 <= win.effective_page
            &&& win.effective_page == clamped_page(
                page,
                last_page(total_rows as int, clamped_limit(limit)),
            )
            &&& win.offset == (win.effective_page - 1) * win.effective_limit
            &&& win.fetch_count == win.effective_page * win.effective_limit
            &&& 0 <= win.offset < total_rows
        },
        (limit matches Some(l) && (l <= 0 || l > MAX_LIMIT) && total_rows > 0) ==> (w
            matches Some(win) && win.effective_limit == DEFAULT_LIMIT),
        (page matches Some(p) && p <= 0 && total_rows > 0) ==> (w matches Some(win)
            && win.effective_page == DEFAULT_PAGE),
        ({
            let last = last_page(total_rows as int, clamped_limit(limit));
            (page matches Some(p) && p > last && last >= 1 && total_rows > 0) ==> (w
                matches Some(win) && win.effective_page == last)
        }),
{
    let l: i32 = match limit {
        None => DEFAULT_LIMIT,
        Some(l) => if l <= 0 || l > MAX_LIMIT {
            DEFAULT_LIMIT
        } else {
            l
        },
    };
    if total_rows == 0 {
        return None;
    }
    let last: i32 = total_rows / l;
    let requested: i32 = match page {
        None => DEFAULT_PAGE,
        Some(p) => p,
    };
    let p: i32 = if requested <= 0 {
        DEFAULT_PAGE
    } else if requested > last {
        if last < 1 {
            1
        } else {
            last
        }
    } else {
        requested
    };
    proof {
        lemma_window_bounds(p as int, l as int, total_rows as int);
    }
    Some(
        PageWindow {
            effective_page: p,
            effective_limit: l,
            offset: (p - 1) * l,
            fetch_count: p * l,
        },
    )
}

/// A clamped page never covers rows past the collection: its window starts
/// at `(p - 1) * l`, strictly before `total`, and ends at `p * l`, at most
/// `max(total, l)`.
proof fn lemma_window_bounds(p: int, l: int, total: int)
    requires
        l >= 1,
        total >= 1,
        1 <= p,
        p <= total / l || p == 1,
    ensures
        0 <= (p - 1) * l,
        (p - 1) * l < total,
        p * l <= total || p * l == l,
{
    vstd::arithmetic::mul::lemma_mul_nonnegative(p - 1, l);
    if p == 1 {
        assert((p - 1) * l == 0) by {
            vstd::arithmetic::mul::lemma_mul_basics_1(l);
        }
        assert(p * l == l) by {
            vstd::arithmetic::mul::lemma_mul_basics_4(l);
        }
    } else {
        assert(p <= total / l);
        vstd::arithmetic::mul::lemma_mul_inequality(p, total / l, l);
        vstd::arithmetic::div_mod::lemma_fundamental_div_mod(total, l);
        vstd::arithmetic::div_mod::lemma_mod_bound(total, l);
        assert((total / l) * l <= total);
        assert(p * l <= total);
        assert((p - 1) * l == p * l - l) by {
            vstd::arithmetic::mul::lemma_mul_is_distributive_sub_other_way(l, p, 1);
        }
        assert((p - 1) * l < total);
    }
}

} // verus!
