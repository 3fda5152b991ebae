//! Statement assembly: affinity expressions, ordering, the shape of the
//! built statements, and an end-to-end scenario over a seeded dataset.
use spark_search::query::{build_count_query, build_search_query, get_affinity_expression, order_clause};
use spark_search::request::parse_search_params;
use spark_search::service::{build_search_response, display_total};
use spark_search::spark::eval_cond;

#[test]
fn affinity_expression_without_player_uses_base_and_race() {
    assert_eq!(
        get_affinity_expression(None),
        "(COALESCE(i.base_affinity, 0) + COALESCE(i.race_affinity, 0))"
    );
}

#[test]
fn affinity_expression_normalizes_both_identifier_encodings() {
    assert_eq!(
        get_affinity_expression(Some(1005)),
        "(COALESCE(i.affinity_scores[5], 0) + COALESCE(i.race_affinity, 0))"
    );
    // A large instance identifier embeds the character identifier.
    assert_eq!(
        get_affinity_expression(Some(100501)),
        "(COALESCE(i.affinity_scores[5], 0) + COALESCE(i.race_affinity, 0))"
    );
}

#[test]
fn order_clause_resolves_sort_keys() {
    let aff = get_affinity_expression(None);
    assert_eq!(
        order_clause(&Some(String::from("win_count")), false, &aff),
        " ORDER BY i.win_count DESC, t.account_id ASC"
    );
    assert_eq!(
        order_clause(&Some(String::from("win_count")), true, &aff),
        " ORDER BY (white_sparks_score + main_white_factors_score) DESC, i.win_count DESC, t.account_id ASC"
    );
    assert_eq!(
        order_clause(&None, false, &aff),
        format!(" ORDER BY {} DESC, t.account_id ASC", aff)
    );
    assert_eq!(
        order_clause(&Some(String::from("affinity")), false, &aff),
        format!(" ORDER BY {} DESC, t.account_id ASC", aff)
    );
    assert_eq!(
        order_clause(&Some(String::from("follower_num")), false, &aff),
        " ORDER BY COALESCE(t.follower_num, 999999) ASC, t.account_id ASC"
    );
}

#[test]
fn default_search_statement_shape() {
    let p = parse_search_params("");
    let (qb, _conds, ow, om) = {
        let r = build_search_query(&p, 20, 0);
        (r.0, r.1, r.2, r.3)
    };
    assert!(ow.is_empty());
    assert!(om.is_empty());
    assert!(qb.sql.starts_with("SELECT i.account_id, t.name as trainer_name"));
    assert!(qb.sql.contains(", 0 AS white_sparks_score"));
    assert!(qb.sql.contains(", 0 AS main_white_factors_score"));
    assert!(qb.sql.contains("WHERE 1=1 AND (t.follower_num IS NULL OR t.follower_num < 1000)"));
    assert!(qb.sql.ends_with(" LIMIT $1 OFFSET $2"));
    assert_eq!(qb.binds.len(), 2);
}

#[test]
fn filtered_search_statement_binds_every_value() {
    let p = parse_search_params(
        "min_win_count=5&blue_sparks=11%2C12&trainer_name=abc&support_card_id=30028&limit=20",
    );
    let r = build_search_query(&p, 20, 0);
    let sql = r.0.sql;
    assert!(sql.contains(" AND i.win_count >= $"));
    assert!(sql.contains("i.blue_sparks && ARRAY[$"));
    assert!(sql.contains(" AND t.name ILIKE $"));
    assert!(sql.contains(" AND sc.support_card_id = $"));
    assert!(sql.contains("sc_exists.support_card_id = $"));
    // No user-controlled text may appear in the statement itself.
    assert!(!sql.contains("abc"));
    assert!(!sql.contains("11,12"));
    // Placeholders are numbered consecutively from one.
    for n in 1..=r.0.binds.len() {
        assert!(sql.contains(&format!("${}", n)), "missing placeholder {}", n);
    }
}

#[test]
fn count_statement_is_capped() {
    let p = parse_search_params("min_win_count=5");
    let r = build_count_query(&p);
    assert!(r.0.sql.starts_with("SELECT COUNT(*) FROM (SELECT 1 FROM inheritance i"));
    assert!(r.0.sql.ends_with(" LIMIT 10001) AS sub"));
    assert!(r.0.sql.contains(" AND i.win_count >= $1"));
    assert_eq!(r.0.binds.len(), 1);
}

#[test]
fn count_statement_uses_exists_for_support_card_filters() {
    let p = parse_search_params("support_card_id=30028&min_limit_break=2");
    let r = build_count_query(&p);
    assert!(r.0.sql.contains(
        " AND EXISTS (SELECT 1 FROM support_card sc_ex WHERE sc_ex.account_id = i.account_id AND sc_ex.support_card_id = $1 AND sc_ex.limit_break_count >= $2)"
    ));
}

struct Seeded {
    account_id: &'static str,
    blue: Vec<i32>,
    win_count: i32,
}

#[test]
fn end_to_end_scenario_over_seeded_records() {
    // The request: one blue group "11,12", a minimum win count of five,
    // sorted by win count, first page of twenty.
    let p = parse_search_params("blue_sparks=11%2C12&min_win_count=5&sort_by=win_count&page=0&limit=20");
    let r = build_search_query(&p, 20, 0);
    let conds = r.1;
    let seeded = vec![
        Seeded { account_id: "a", blue: vec![11, 31], win_count: 9 },
        Seeded { account_id: "b", blue: vec![12], win_count: 5 },
        Seeded { account_id: "c", blue: vec![13], win_count: 50 },  // no blue match
        Seeded { account_id: "d", blue: vec![11], win_count: 4 },   // too few wins
        Seeded { account_id: "e", blue: vec![12, 11], win_count: 9 },
    ];
    // Emulate the executor: filter by the rendered predicate semantics,
    // then order by win count descending with the account tie-break.
    let mut matched: Vec<&Seeded> = seeded
        .iter()
        .filter(|s| eval_cond(&conds.blue, &s.blue) && s.win_count >= 5)
        .collect();
    matched.sort_by(|x, y| y.win_count.cmp(&x.win_count).then(x.account_id.cmp(y.account_id)));
    let ids: Vec<&str> = matched.iter().map(|s| s.account_id).collect();
    assert_eq!(ids, vec!["a", "e", "b"]);
    let total = matched.len() as i64;
    assert_eq!(total, 3);
    let resp = build_search_response(Vec::new(), total, 0, 20, false);
    assert_eq!(resp.total, "3");
    assert_eq!(resp.total_pages, 1);
    assert_eq!(display_total(total, false), "3");
}
