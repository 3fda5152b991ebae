//! Spark-filter algebra: wildcard expansion, group parsing, and the
//! multi-group predicate semantics evaluated against concrete record
//! arrays.
use spark_search::spark::{
    eval_atom, eval_clause, eval_cond, expand_spark_group, expand_wildcard, main_parent_clause,
    multi_group_condition, nine_star_values, parse_spark_group, process_spark_groups, ArrayAtom,
    ScalarAtom,
};

#[test]
fn wildcard_level_three_expands_to_hundred_values() {
    let v = expand_wildcard(3);
    assert_eq!(v.len(), 100);
    for (i, x) in v.iter().enumerate() {
        assert_eq!(*x, (i as i32 + 1) * 10 + 3);
    }
    assert_eq!(v[0], 13);
    assert_eq!(v[1], 23);
    assert_eq!(v[99], 1003);
    // No duplicates.
    let mut sorted = v.clone();
    sorted.sort();
    sorted.dedup();
    assert_eq!(sorted.len(), 100);
}

#[test]
fn expand_group_mixes_explicit_values_and_wildcards() {
    let v = expand_spark_group(&vec![11, 2, 11]);
    // 11 plus every factor at level 2, sorted and duplicate-free.
    assert_eq!(v.len(), 101);
    assert!(v.contains(&11));
    assert!(v.contains(&12));
    assert!(v.contains(&1002));
    assert!(!v.contains(&13));
    let mut sorted = v.clone();
    sorted.sort();
    assert_eq!(v, sorted);
}

#[test]
fn parse_group_trims_and_drops_bad_entries() {
    assert_eq!(parse_spark_group("11, 22 ,x,33"), vec![11, 22, 33]);
    assert_eq!(parse_spark_group(""), Vec::<i32>::new());
    assert_eq!(parse_spark_group("nope"), Vec::<i32>::new());
    assert_eq!(parse_spark_group("-4,+5"), vec![-4, 5]);
}

#[test]
fn process_groups_drops_empty_groups() {
    let groups = process_spark_groups(&vec![
        String::from("11,12"),
        String::from(""),
        String::from("junk"),
        String::from("33"),
    ]);
    assert_eq!(groups, vec![vec![11, 12], vec![33]]);
}

#[test]
fn disjoint_pair_needs_one_match_in_each_group() {
    let cond = multi_group_condition(&vec![vec![11, 21], vec![31, 41]]);
    assert!(eval_cond(&cond, &vec![11, 31]));
    assert!(!eval_cond(&cond, &vec![11]));
    assert!(!eval_cond(&cond, &vec![31, 41]));
    assert!(eval_cond(&cond, &vec![21, 41, 99]));
}

#[test]
fn identical_pair_needs_two_distinct_matches() {
    // Two copies of wildcard level 1: the expansions are the same set, so a
    // record needs at least two distinct matching elements.
    let cond = multi_group_condition(&vec![vec![1], vec![1]]);
    assert!(!eval_cond(&cond, &vec![11]));
    assert!(!eval_cond(&cond, &vec![11, 11]));
    assert!(eval_cond(&cond, &vec![11, 21]));
    assert!(eval_cond(&cond, &vec![11, 21, 5]));
}

#[test]
fn single_group_is_overlap_of_explicit_or_wildcard() {
    let cond = multi_group_condition(&vec![vec![11, 2]]);
    // Explicit 11 or any factor at level 2.
    assert!(eval_cond(&cond, &vec![11]));
    assert!(eval_cond(&cond, &vec![52]));
    assert!(!eval_cond(&cond, &vec![21, 33]));
}

#[test]
fn overlapping_pair_uses_cardinality_heuristic() {
    // {11,21} and {21,31} overlap: a match in each group plus total
    // cardinality two — the documented approximation accepts [21, 99].
    let cond = multi_group_condition(&vec![vec![11, 21], vec![21, 31]]);
    assert!(eval_cond(&cond, &vec![11, 31]));
    assert!(eval_cond(&cond, &vec![21, 99]));
    assert!(!eval_cond(&cond, &vec![21]));
    assert!(!eval_cond(&cond, &vec![99, 98]));
}

#[test]
fn three_disjoint_groups_need_a_match_each() {
    let cond = multi_group_condition(&vec![vec![11], vec![21], vec![31]]);
    assert!(eval_cond(&cond, &vec![11, 21, 31]));
    assert!(!eval_cond(&cond, &vec![11, 21]));
}

#[test]
fn three_overlapping_groups_count_distinct_union_matches() {
    let cond = multi_group_condition(&vec![vec![11, 21], vec![21, 31], vec![41]]);
    assert!(eval_cond(&cond, &vec![11, 21, 41]));
    assert!(!eval_cond(&cond, &vec![21, 41]));
}

#[test]
fn empty_groups_mean_no_condition() {
    let cond = multi_group_condition(&Vec::new());
    assert!(eval_cond(&cond, &Vec::new()));
    assert!(eval_cond(&cond, &vec![1, 2, 3]));
}

#[test]
fn nine_star_values_cover_six_stat_categories() {
    assert_eq!(nine_star_values(9), vec![109, 209, 309, 409, 509, 609]);
}

#[test]
fn atoms_evaluate_overlap_intersection_and_cardinality() {
    assert!(eval_atom(&ArrayAtom::Overlap(vec![5, 7]), &vec![1, 7]));
    assert!(!eval_atom(&ArrayAtom::Overlap(vec![5, 7]), &vec![1, 2]));
    // Duplicates in the record count once for the intersection test.
    assert!(!eval_atom(&ArrayAtom::IntersectAtLeast(vec![5, 7], 2), &vec![5, 5]));
    assert!(eval_atom(&ArrayAtom::IntersectAtLeast(vec![5, 7], 2), &vec![5, 7, 5]));
    // Cardinality counts duplicates.
    assert!(eval_atom(&ArrayAtom::CardAtLeast(2), &vec![5, 5]));
    assert!(!eval_atom(&ArrayAtom::CardAtLeast(3), &vec![5, 5]));
}

#[test]
fn main_parent_clause_splits_values_and_takes_least_wildcard() {
    let cl = main_parent_clause(&vec![12, 3, 34, 1]);
    assert_eq!(cl.atoms.len(), 2);
    match &cl.atoms[0] {
        ScalarAtom::EqAny(vs) => assert_eq!(vs, &vec![12, 34]),
        _ => panic!("expected an equality atom"),
    }
    match &cl.atoms[1] {
        ScalarAtom::ModAtLeast(w) => assert_eq!(*w, 1),
        _ => panic!("expected a final-digit atom"),
    }
}

#[test]
fn clause_is_disjunction_of_atoms() {
    let cond = multi_group_condition(&vec![vec![11, 2]]);
    assert_eq!(cond.clauses.len(), 1);
    assert!(eval_clause(&cond.clauses[0], &vec![32]));
    assert!(!eval_clause(&cond.clauses[0], &vec![31]));
}
