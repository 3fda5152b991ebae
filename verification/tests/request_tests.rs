//! Request parsing, blank-query classification, and cache-key behavior.
use spark_search::keys::{count_cache_key, search_cache_key};
use spark_search::request::{parse_search_params, UnifiedSearchParams};

fn blank_params() -> UnifiedSearchParams {
    parse_search_params("")
}

#[test]
fn parse_reads_every_field_kind() {
    let p = parse_search_params(
        "page=3&limit=50&search_type=inheritance&min_win_count=5&blue_sparks=11%2C12&blue_sparks=33&blue_sparks_9star=true&trainer_name=ab%20c&player_chara_id=1005&sort_by=win_count",
    );
    assert_eq!(p.page, Some(3));
    assert_eq!(p.limit, Some(50));
    assert_eq!(p.search_type.as_deref(), Some("inheritance"));
    assert_eq!(p.min_win_count, Some(5));
    assert_eq!(p.blue_sparks, vec![String::from("11,12"), String::from("33")]);
    assert_eq!(p.blue_sparks_9star, Some(true));
    assert_eq!(p.trainer_name.as_deref(), Some("ab c"));
    assert_eq!(p.player_chara_id, Some(1005));
    assert_eq!(p.sort_by.as_deref(), Some("win_count"));
    assert_eq!(p.pink_sparks, Vec::<String>::new());
    assert_eq!(p.main_parent_id, None);
}

#[test]
fn parse_ignores_unparseable_numbers() {
    let p = parse_search_params("page=abc&min_win_count=&max_limit_break=7x&min_experience=12");
    assert_eq!(p.page, None);
    assert_eq!(p.min_win_count, None);
    assert_eq!(p.max_limit_break, None);
    assert_eq!(p.min_experience, Some(12));
}

#[test]
fn parse_takes_the_last_occurrence_of_scalar_fields() {
    let p = parse_search_params("page=1&page=2");
    assert_eq!(p.page, Some(2));
}

#[test]
fn optional_main_white_factors_fall_back_to_alternate_name() {
    let p = parse_search_params("optional_main_white_sparks=301");
    assert_eq!(p.optional_main_white_factors, vec![String::from("301")]);
    let q = parse_search_params("optional_main_white_factors=302&optional_main_white_sparks=301");
    assert_eq!(q.optional_main_white_factors, vec![String::from("302")]);
}

#[test]
fn default_request_is_blank() {
    assert!(blank_params().is_blank_query());
}

#[test]
fn one_filter_field_makes_the_request_non_blank() {
    let mut p = blank_params();
    p.min_win_count = Some(5);
    assert!(!p.is_blank_query());
}

#[test]
fn default_like_values_still_count_as_blank() {
    let mut p = blank_params();
    p.parent_rank = Some(1);
    p.min_win_count = Some(0);
    p.max_follower_num = Some(1000);
    assert!(p.is_blank_query());
    p.max_follower_num = Some(999);
    assert!(p.is_blank_query());
    p.max_follower_num = Some(998);
    assert!(!p.is_blank_query());
}

#[test]
fn pagination_and_sort_never_affect_blankness() {
    let mut p = blank_params();
    p.page = Some(7);
    p.limit = Some(3);
    p.sort_by = Some(String::from("win_count"));
    p.sort_order = Some(String::from("asc"));
    p.search_type = Some(String::from("inheritance"));
    assert!(p.is_blank_query());
}

#[test]
fn identical_requests_share_a_cache_key() {
    let a = parse_search_params("page=1&blue_sparks=11&trainer_name=abc");
    let b = parse_search_params("page=1&blue_sparks=11&trainer_name=abc");
    assert_eq!(search_cache_key(&a), search_cache_key(&b));
    assert_eq!(count_cache_key(&a), count_cache_key(&b));
}

#[test]
fn changing_any_field_changes_the_search_key() {
    let base = parse_search_params("page=1&blue_sparks=11&trainer_name=abc");
    let mut p = parse_search_params("page=1&blue_sparks=11&trainer_name=abc");
    p.page = Some(2);
    assert_ne!(search_cache_key(&base), search_cache_key(&p));
    let mut q = parse_search_params("page=1&blue_sparks=11&trainer_name=abc");
    q.trainer_name = Some(String::from("abd"));
    assert_ne!(search_cache_key(&base), search_cache_key(&q));
    let mut r = parse_search_params("page=1&blue_sparks=11&trainer_name=abc");
    r.blue_sparks = vec![String::from("11"), String::from("12")];
    assert_ne!(search_cache_key(&base), search_cache_key(&r));
}

#[test]
fn sentinel_like_values_do_not_collide_in_keys() {
    // A literal string value must never collide with the absent sentinel.
    let absent = blank_params();
    let mut tricky = blank_params();
    tricky.trainer_id = Some(String::from("any"));
    assert_ne!(search_cache_key(&absent), search_cache_key(&tricky));
    // A separator inside a string value must not produce the key of two
    // different fields.
    let mut colon = blank_params();
    colon.trainer_id = Some(String::from("a:b"));
    let mut plain = blank_params();
    plain.trainer_id = Some(String::from("a"));
    plain.trainer_name = Some(String::from("b"));
    assert_ne!(search_cache_key(&colon), search_cache_key(&plain));
}

#[test]
fn count_key_ignores_pagination_but_search_key_does_not() {
    let a = parse_search_params("min_win_count=5&page=0");
    let b = parse_search_params("min_win_count=5&page=9");
    assert_eq!(count_cache_key(&a), count_cache_key(&b));
    assert_ne!(search_cache_key(&a), search_cache_key(&b));
}
