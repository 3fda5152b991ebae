//! Search-service orchestration: the typed result records, row mapping,
//! response shaping (page arithmetic and the display-total policy), and the
//! cache policy around the count and search statements.
use vstd::prelude::*;

verus! {

use crate::cache::{set_post, spec_lookup, Cache};
use crate::keys::{count_cache_key, search_cache_key, spec_count_key, spec_search_key};
use crate::request::{is_blank_spec, UnifiedSearchParams};
use crate::text::{i64_to_string, parse_i64, spec_dec_int, spec_parse_i64};

/// How long a blank request's response stays cached, in milliseconds.
pub const SEARCH_CACHE_TTL_MS: u64 = 3600000;

/// How long a filtered count stays cached, in milliseconds.
pub const COUNT_CACHE_TTL_MS: u64 = 300000;

/// The capped count beyond which the display total becomes a sentinel.
pub const DISPLAY_TOTAL_CAP: i64 = 10000;

/// One inheritance record, as returned by the search.
#[derive(Debug, Clone)]
pub struct Inheritance {
    pub inheritance_id: i32,
    pub account_id: String,
    pub main_parent_id: i32,
    pub parent_left_id: i32,
    pub parent_right_id: i32,
    pub parent_rank: i32,
    pub parent_rarity: i32,
    pub blue_sparks: Vec<i32>,
    pub pink_sparks: Vec<i32>,
    pub green_sparks: Vec<i32>,
    pub white_sparks: Vec<i32>,
    pub win_count: i32,
    pub white_count: i32,
    pub main_blue_factors: i32,
    pub main_pink_factors: i32,
    pub main_green_factors: i32,
    pub main_white_factors: Vec<i32>,
    pub main_white_count: i32,
    pub affinity_score: Option<i32>,
}

/// One support-card record, as returned by the search.
#[derive(Debug, Clone)]
pub struct SupportCard {
    pub account_id: String,
    pub support_card_id: i32,
    pub limit_break_count: Option<i32>,
    pub experience: i32,
}

/// One account in a search result: the trainer summary with its optional
/// inheritance and best support card.  The update instant is carried as
/// Unix seconds.
#[derive(Debug)]
pub struct UnifiedAccountRecord {
    pub account_id: String,
    pub trainer_name: String,
    pub follower_num: Option<i32>,
    pub last_updated: Option<i64>,
    pub inheritance: Option<Inheritance>,
    pub support_card: Option<SupportCard>,
}

/// One row of the search statement, as plain values: the joined columns in
/// statement order, with the left-joined support-card fields optional.
#[derive(Debug)]
pub struct RawSearchRow {
    pub account_id: String,
    pub trainer_name: String,
    pub follower_num: Option<i32>,
    pub last_updated: Option<i64>,
    pub inheritance_id: Option<i32>,
    pub main_parent_id: i32,
    pub parent_left_id: i32,
    pub parent_right_id: i32,
    pub parent_rank: i32,
    pub parent_rarity: i32,
    pub blue_sparks: Vec<i32>,
    pub pink_sparks: Vec<i32>,
    pub green_sparks: Vec<i32>,
    pub white_sparks: Vec<i32>,
    pub win_count: i32,
    pub white_count: i32,
    pub main_blue_factors: i32,
    pub main_pink_factors: i32,
    pub main_green_factors: i32,
    pub main_white_factors: Vec<i32>,
    pub main_white_count: i32,
    pub affinity_score: Option<i32>,
    pub support_card_id: Option<i32>,
    pub limit_break_count: Option<i32>,
    pub experience: Option<i32>,
}

/// The response of the search endpoint.
#[derive(Debug)]
pub struct SearchResponse {
    pub items: Vec<UnifiedAccountRecord>,
    pub total: String,
    pub page: i64,
    pub limit: i64,
    pub total_pages: i64,
}

/// Map one raw row to a typed record: the inheritance sub-record is present
/// exactly when the row carries an inheritance identifier, the support-card
/// sub-record exactly when it carries a support-card identifier.
pub fn map_row(row: RawSearchRow) -> (r: UnifiedAccountRecord)
    requires
        row.support_card_id is Some ==> row.experience is Some,
    ensures
        r.account_id@ == row.account_id@,
        r.trainer_name@ == row.trainer_name@,
        r.follower_num == row.follower_num,
        r.last_updated == row.last_updated,
        r.inheritance is Some <==> row.inheritance_id is Some,
        row.inheritance_id is Some ==> {
            let inh = r.inheritance->0;
            &&& inh.inheritance_id == row.inheritance_id->0
            &&& inh.account_id@ == row.account_id@
            &&& inh.main_parent_id == row.main_parent_id
            &&& inh.parent_left_id == row.parent_left_id
            &&& inh.parent_right_id == row.parent_right_id
            &&& inh.parent_rank == row.parent_rank
            &&& inh.parent_rarity == row.parent_rarity
            &&& inh.blue_sparks@ == row.blue_sparks@
            &&& inh.pink_sparks@ == row.pink_sparks@
            &&& inh.green_sparks@ == row.green_sparks@
            &&& inh.white_sparks@ == row.white_sparks@
            &&& inh.win_count == row.win_count
            &&& inh.white_count == row.white_count
            &&& inh.main_blue_factors == row.main_blue_factors
            &&& inh.main_pink_factors == row.main_pink_factors
            &&& inh.main_green_factors == row.main_green_factors
            &&& inh.main_white_factors@ == row.main_white_factors@
            &&& inh.main_white_count == row.main_white_count
            &&& inh.affinity_score == row.affinity_score
        },
        r.support_card is Some <==> row.support_card_id is Some,
        row.support_card_id is Some ==> {
            let sc = r.support_card->0;
            &&& sc.account_id@ == row.account_id@
            &&& sc.support_card_id == row.support_card_id->0
            &&& sc.limit_break_count == row.limit_break_count
            &&& sc.experience == row.experience->0
        },
{
    let support_card: Option<SupportCard> = match row.support_card_id {
        Some(id) => Some(
            SupportCard {
                account_id: row.account_id.clone(),
                support_card_id: id,
                limit_break_count: row.limit_break_count,
                experience: match row.experience {
                    Some(e) => e,
                    None => 0,
                },
            },
        ),
        None => None,
    };
    let inheritance: Option<Inheritance> = match row.inheritance_id {
        Some(id) => Some(
            Inheritance {
                inheritance_id: id,
                account_id: row.account_id.clone(),
                main_parent_id: row.main_parent_id,
                parent_left_id: row.parent_left_id,
                parent_right_id: row.parent_right_id,
                parent_rank: row.parent_rank,
                parent_rarity: row.parent_rarity,
                blue_sparks: row.blue_sparks,
                pink_sparks: row.pink_sparks,
                green_sparks: row.green_sparks,
                white_sparks: row.white_sparks,
                win_count: row.win_count,
                white_count: row.white_count,
                main_blue_factors: row.main_blue_factors,
                main_pink_factors: row.main_pink_factors,
                main_green_factors: row.main_green_factors,
                main_white_factors: row.main_white_factors,
                main_white_count: row.main_white_count,
                affinity_score: row.affinity_score,
            },
        ),
        None => None,
    };
    UnifiedAccountRecord {
        account_id: row.account_id,
        trainer_name: row.trainer_name,
        follower_num: row.follower_num,
        last_updated: row.last_updated,
        inheritance,
        support_card,
    }
}

/// The display total: the literal count, except that a non-blank query
/// whose capped count exceeds the threshold shows a fixed sentinel.
pub open spec fn spec_display_total(total: i64, is_blank: bool) -> Seq<char> {
    if !is_blank && total > DISPLAY_TOTAL_CAP {
        "over 10000"@
    } else {
        spec_dec_int(total as int)
    }
}

/// Render the display total.
pub fn display_total(total: i64, is_blank: bool) -> (r: String)
    ensures
        r@ == spec_display_total(total, is_blank),
{
    if !is_blank && total > DISPLAY_TOTAL_CAP {
        String::from_str("over 10000")
    } else {
        i64_to_string(total)
    }
}

/// The normalized page number: zero when absent.
pub open spec fn spec_page(p: UnifiedSearchParams) -> i64 {
    let v = match p.page {
        Some(v) => v,
        None => 0i64,
    };
    if v < 0 {
        0
    } else {
        v
    }
}

/// The normalized page size: twenty when absent, clamped to lie between
/// one and one hundred.
pub open spec fn spec_limit(p: UnifiedSearchParams) -> i64 {
    let l = match p.limit {
        Some(v) => v,
        None => 20i64,
    };
    if l < 1 {
        1
    } else if l > 100 {
        100
    } else {
        l
    }
}

/// The row offset of the normalized page window: `page * limit`,
/// saturating at the top of `i64`.
pub open spec fn spec_offset(p: UnifiedSearchParams) -> i64 {
    if spec_page(p) * spec_limit(p) <= i64::MAX {
        (spec_page(p) * spec_limit(p)) as i64
    } else {
        i64::MAX
    }
}

/// Normalize pagination: the page number (at least zero), the page size
/// (between one and one hundred), and the row offset `page * limit`.
pub fn normalize_paging(p: &UnifiedSearchParams) -> (r: (i64, i64, i64))
    ensures
        r.0 == spec_page(*p),
        r.1 == spec_limit(*p),
        r.2 == spec_offset(*p),
        0 <= r.0,
        1 <= r.1 <= 100,
        0 <= r.2,
{
    let page_raw = match p.page {
        Some(v) => v,
        None => 0,
    };
    let page = if page_raw < 0 {
        0
    } else {
        page_raw
    };
    let limit_raw = match p.limit {
        Some(v) => v,
        None => 20,
    };
    let limit = if limit_raw < 1 {
        1
    } else if limit_raw > 100 {
        100
    } else {
        limit_raw
    };
    let offset = match page.checked_mul(limit) {
        Some(v) => v,
        None => i64::MAX,
    };
    proof {
        assert(page * limit >= 0) by (nonlinear_arith)
            requires
                page >= 0,
                limit >= 1,
        {}
    }
    (page, limit, offset)
}

/// Assemble the response: the mapped records, the display total, the page
/// window and the page count `ceil(total / limit)` (zero when `limit` is
/// zero).
pub fn build_search_response(
    items: Vec<UnifiedAccountRecord>,
    total: i64,
    page: i64,
    limit: i64,
    is_blank: bool,
) -> (r: SearchResponse)
    requires
        0 <= total,
        0 <= limit,
        total + limit <= i64::MAX,
    ensures
        r.items@ == items@,
        r.total@ == spec_display_total(total, is_blank),
        r.page == page,
        r.limit == limit,
        limit > 0 ==> r.total_pages == (total + limit - 1) / (limit as int),
        limit == 0 ==> r.total_pages == 0,
{
    let total_pages = crate::total_pages(total, limit);
    let total_display = display_total(total, is_blank);
    SearchResponse { items, total: total_display, page, limit, total_pages }
}

/// Look a previously computed count up in the cache; absent, lapsed or
/// unreadable entries count as misses.  Touches the entry like any lookup.
pub fn count_cached(cache: &mut Cache, p: &UnifiedSearchParams, now: u64) -> (r: Option<i64>)
    ensures
        r == (match spec_lookup(old(cache)@, spec_count_key(*p), now) {
            Some(d) => spec_parse_i64(d),
            None => None::<i64>,
        }),
{
    let key = count_cache_key(p);
    match cache.get(key.as_str(), now) {
        Some(payload) => parse_i64(payload.as_str()),
        None => None,
    }
}

/// Write a freshly computed count through to the cache, with the short
/// count time-to-live.
pub fn count_store(cache: &mut Cache, p: &UnifiedSearchParams, count: i64, now: u64)
    ensures
        set_post(
            old(cache)@,
            final(cache)@,
            spec_count_key(*p),
            spec_dec_int(count as int),
            COUNT_CACHE_TTL_MS,
            now,
        ),
{
    let key = count_cache_key(p);
    let payload = i64_to_string(count);
    cache.set(key.as_str(), payload, COUNT_CACHE_TTL_MS, now);
}

/// Look a cached search response payload up: only blank requests are
/// cached, so a non-blank request misses without touching the cache.
pub fn search_cached(cache: &mut Cache, p: &UnifiedSearchParams, now: u64) -> (r: Option<String>)
    ensures
        !is_blank_spec(*p) ==> r is None && final(cache)@ == old(cache)@,
        is_blank_spec(*p) ==> match r {
            Some(d) => spec_lookup(old(cache)@, spec_search_key(*p), now) == Some(d@),
            None => spec_lookup(old(cache)@, spec_search_key(*p), now) is None,
        },
{
    if !p.is_blank_query() {
        return None;
    }
    let key = search_cache_key(p);
    cache.get(key.as_str(), now)
}

/// Write a serialized search response through to the cache — only for
/// blank requests, with the long time-to-live.
pub fn search_store(cache: &mut Cache, p: &UnifiedSearchParams, payload: String, now: u64)
    ensures
        !is_blank_spec(*p) ==> final(cache)@ == old(cache)@,
        is_blank_spec(*p) ==> set_post(
            old(cache)@,
            final(cache)@,
            spec_search_key(*p),
            payload@,
            SEARCH_CACHE_TTL_MS,
            now,
        ),
{
    if !p.is_blank_query() {
        return ;
    }
    let key = search_cache_key(p);
    cache.set(key.as_str(), payload, SEARCH_CACHE_TTL_MS, now);
}

} // verus!
