//! Faceted search over inheritance and support-card records: a parameterized
//! SQL builder for spark-array filter predicates, a TTL + LRU result cache,
//! and the request-shaping rules of the unified search endpoint.
use vstd::prelude::*;

pub mod cache;
pub mod errors;
pub mod keys;
pub mod query;
pub mod request;
pub mod service;
pub mod share;
pub mod spark;
pub mod sql;
pub mod text;

verus! {

/// Number of result pages needed to show `total` rows at `limit` rows per
/// page: the ceiling of `total / limit`, or 0 when `limit` is 0.
pub fn total_pages(total: i64, limit: i64) -> (pages: i64)
    requires
        0 <= total,
        0 <= limit,
        total + limit <= i64::MAX,
    ensures
        limit > 0 ==> pages == (total + limit - 1) / (limit as int),
        limit == 0 ==> pages == 0,
{
    if limit > 0 {
        (total + limit - 1) / limit
    } else {
        0
    }
}

} // verus!
