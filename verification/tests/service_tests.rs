//! Response shaping, count caching, and the errors and share helpers.
use spark_search::cache::Cache;
use spark_search::errors::AppError;
use spark_search::request::parse_search_params;
use spark_search::service::{
    build_search_response, count_cached, count_store, display_total, map_row, normalize_paging,
    search_cached, search_store, RawSearchRow,
};
use spark_search::share::{get_rank_display, get_rarity_display, parse_share_type, ShareType};
use spark_search::total_pages;

fn sample_row(with_inheritance: bool, with_card: bool) -> RawSearchRow {
    RawSearchRow {
        account_id: String::from("acct1"),
        trainer_name: String::from("Trainer"),
        follower_num: Some(12),
        last_updated: Some(1700000000),
        inheritance_id: if with_inheritance { Some(77) } else { None },
        main_parent_id: 1005,
        parent_left_id: 1001,
        parent_right_id: 1002,
        parent_rank: 8,
        parent_rarity: 2,
        blue_sparks: vec![11, 21],
        pink_sparks: vec![101],
        green_sparks: vec![201],
        white_sparks: vec![301, 302],
        win_count: 9,
        white_count: 4,
        main_blue_factors: 19,
        main_pink_factors: 12,
        main_green_factors: 11,
        main_white_factors: vec![305],
        main_white_count: 1,
        affinity_score: Some(140),
        support_card_id: if with_card { Some(30028) } else { None },
        limit_break_count: if with_card { Some(4) } else { None },
        experience: if with_card { Some(50000) } else { None },
    }
}

#[test]
fn pagination_arithmetic_takes_the_ceiling() {
    assert_eq!(total_pages(101, 20), 6);
    assert_eq!(total_pages(100, 20), 5);
    assert_eq!(total_pages(0, 20), 0);
    assert_eq!(total_pages(1, 20), 1);
    assert_eq!(total_pages(5, 0), 0);
}

#[test]
fn display_total_over_threshold_shows_sentinel_for_filtered_queries() {
    assert_eq!(display_total(10001, false), "over 10000");
    assert_eq!(display_total(10000, false), "10000");
    assert_eq!(display_total(10001, true), "10001");
    assert_eq!(display_total(0, false), "0");
}

#[test]
fn paging_defaults_and_caps() {
    let p = parse_search_params("");
    assert_eq!(normalize_paging(&p), (0, 20, 0));
    let q = parse_search_params("page=3&limit=250");
    assert_eq!(normalize_paging(&q), (3, 100, 300));
    let r = parse_search_params("page=2&limit=50");
    assert_eq!(normalize_paging(&r), (2, 50, 100));
}

#[test]
fn paging_clamps_below_the_valid_window() {
    // The effective limit always lies in 1..=100 and the page is never
    // negative, whatever the request says.
    let zero = parse_search_params("limit=0");
    assert_eq!(normalize_paging(&zero), (0, 1, 0));
    let neg = parse_search_params("page=-4&limit=-9");
    assert_eq!(normalize_paging(&neg), (0, 1, 0));
    let one = parse_search_params("limit=1&page=5");
    assert_eq!(normalize_paging(&one), (5, 1, 5));
}

#[test]
fn response_shape_carries_everything() {
    let resp = build_search_response(Vec::new(), 101, 0, 20, false);
    assert_eq!(resp.total, "101");
    assert_eq!(resp.page, 0);
    assert_eq!(resp.limit, 20);
    assert_eq!(resp.total_pages, 6);
    assert_eq!(resp.items.len(), 0);
}

#[test]
fn row_mapping_builds_sub_records_exactly_when_present() {
    let full = map_row(sample_row(true, true));
    let inh = full.inheritance.expect("inheritance present");
    assert_eq!(inh.inheritance_id, 77);
    assert_eq!(inh.blue_sparks, vec![11, 21]);
    let sc = full.support_card.expect("support card present");
    assert_eq!(sc.support_card_id, 30028);
    assert_eq!(sc.experience, 50000);

    let bare = map_row(sample_row(false, false));
    assert!(bare.inheritance.is_none());
    assert!(bare.support_card.is_none());
    assert_eq!(bare.account_id, "acct1");
}

#[test]
fn count_cache_round_trip() {
    let mut cache = Cache::new();
    let p = parse_search_params("min_win_count=5");
    assert_eq!(count_cached(&mut cache, &p, 0), None);
    count_store(&mut cache, &p, 4321, 0);
    assert_eq!(count_cached(&mut cache, &p, 100), Some(4321));
    // A different filter misses.
    let q = parse_search_params("min_win_count=6");
    assert_eq!(count_cached(&mut cache, &q, 100), None);
    // The short time-to-live lapses.
    assert_eq!(count_cached(&mut cache, &p, 300_000), None);
}

#[test]
fn search_cache_applies_only_to_blank_requests() {
    let mut cache = Cache::new();
    let blank = parse_search_params("page=0&limit=20");
    let filtered = parse_search_params("min_win_count=5");
    search_store(&mut cache, &filtered, String::from("resp"), 0);
    assert_eq!(search_cached(&mut cache, &filtered, 1), None);
    search_store(&mut cache, &blank, String::from("resp"), 0);
    assert_eq!(search_cached(&mut cache, &blank, 1), Some(String::from("resp")));
    // The long time-to-live lapses after an hour.
    assert_eq!(search_cached(&mut cache, &blank, 3_600_000), None);
}

#[test]
fn errors_map_to_status_and_message() {
    let db = AppError::Database(String::from("connect refused at host"));
    assert_eq!(db.status_code(), 500);
    assert_eq!(db.public_message(), "Database error occurred");
    let bad = AppError::BadRequest(String::from("missing id"));
    assert_eq!(bad.status_code(), 400);
    assert_eq!(bad.public_message(), "missing id");
    let dbm = AppError::DatabaseError(String::from("pool timeout"));
    assert_eq!(dbm.status_code(), 500);
    assert_eq!(dbm.public_message(), "pool timeout");
}

#[test]
fn share_type_dispatch() {
    assert_eq!(parse_share_type("inheritance"), Some(ShareType::Inheritance));
    assert_eq!(parse_share_type("support-card"), Some(ShareType::SupportCard));
    assert_eq!(parse_share_type("other"), None);
}

#[test]
fn rank_and_rarity_displays() {
    assert_eq!(get_rank_display(1), "G");
    assert_eq!(get_rank_display(8), "S");
    assert_eq!(get_rank_display(10), "SSS");
    assert_eq!(get_rank_display(42), "Rank 42");
    assert_eq!(get_rarity_display(1), "★");
    assert_eq!(get_rarity_display(3), "★★★");
    assert_eq!(get_rarity_display(5), "5★");
}
