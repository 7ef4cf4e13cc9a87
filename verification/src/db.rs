//! Persistent-history record types and the pagination arithmetic the
//! storage layer uses; the SQL itself runs with the caller.

use vstd::prelude::*;

verus! {

/// One download as persisted.
pub struct DownloadRecord {
    pub id: String,
    pub file_name: Option<String>,
    pub size: Option<i64>,
    pub network: String,
    pub bot: String,
    pub channel: String,
    pub status: String,
    pub error: Option<String>,
    pub created_at: String,
    pub completed_at: String,
}

/// One search as persisted.
pub struct SearchRecord {
    pub id: i64,
    pub query: String,
    pub results_count: i64,
    pub results_json: Option<String>,
    pub searched_at: String,
}

/// A page of items with its pagination figures.
pub struct PaginatedResponse<T> {
    pub items: Vec<T>,
    pub total: i64,
    pub page: i64,
    pub limit: i64,
    pub total_pages: i64,
}

/// The first row index of a page, counting pages from one.
pub fn page_offset(page: i64, limit: i64) -> (r: i64)
    requires
        page >= 1,
        0 <= limit <= 0x7FFF_FFFF,
        page <= 0x7FFF_FFFF,
    ensures
        r == (page - 1) * limit,
{
    proof {
        assert((page - 1) * limit <= 0x7FFF_FFFF * 0x7FFF_FFFF) by (nonlinear_arith)
            requires
                0 <= page - 1 <= 0x7FFF_FFFF,
                0 <= limit <= 0x7FFF_FFFF,
        ;
        assert((page - 1) * limit >= 0) by (nonlinear_arith)
            requires
                page - 1 >= 0,
                limit >= 0,
        ;
    }
    (page - 1) * limit
}

/// How many pages a total fills, rounding up.
pub fn total_pages(total: i64, limit: i64) -> (r: i64)
    requires
        0 <= total,
        1 <= limit,
        total + limit <= i64::MAX,
    ensures
        r == (total + limit - 1) / (limit as int),
        limit * r >= total,
        total > 0 ==> limit * (r - 1) < total,
        total == 0 ==> r == 0,
{
    let r = (total + limit - 1) / limit;
    proof {
        let x = total as int + limit as int - 1;
        vstd::arithmetic::div_mod::lemma_fundamental_div_mod(x, limit as int);
        vstd::arithmetic::div_mod::lemma_mod_bound(x, limit as int);
        assert(x == limit as int * (x / limit as int) + x % (limit as int));
        assert(limit as int * r == x - x % (limit as int));
        assert(limit as int * (r - 1) == limit as int * r - limit as int) by (nonlinear_arith);
        if total == 0 {
            assert(0 <= x < limit as int);
            assert(x / (limit as int) == 0) by {
                if x / (limit as int) != 0 {
                    vstd::arithmetic::div_mod::lemma_div_pos_is_pos(x, limit as int);
                    vstd::arithmetic::div_mod::lemma_div_is_ordered(limit as int, x, limit as int);
                    vstd::arithmetic::div_mod::lemma_div_by_multiple(1, limit as int);
                }
            }
        }
    }
    r
}

} // verus!
