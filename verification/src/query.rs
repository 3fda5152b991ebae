//! Assembly of the two statements of the unified search endpoint — the
//! paged result query and the capped count query — from a filter request.
//! Both share the same predicate construction; every caller-controlled
//! value is bound, never written into the statement text.
use vstd::prelude::*;

verus! {

use crate::request::UnifiedSearchParams;
use crate::spark::{
    spec_group, spec_groups, views_of_strings,
};
use crate::sql::{placeholder, BindValue, SqlBuilder};
use crate::text::{spec_dec_int, i64_to_string};

/// The text an optional `i32` filter appends: its prefix, a placeholder and
/// a suffix when present, nothing when absent.
pub open spec fn opt_i32_sql(
    prefix: Seq<char>,
    v: Option<i32>,
    suffix: Seq<char>,
    start: int,
) -> Seq<char> {
    match v {
        Some(x) => prefix + placeholder(start + 1) + suffix,
        None => Seq::<char>::empty(),
    }
}

/// The bind an optional `i32` filter appends.
pub open spec fn opt_i32_binds(v: Option<i32>) -> Seq<BindValue> {
    match v {
        Some(x) => seq![BindValue::Int(x)],
        None => Seq::<BindValue>::empty(),
    }
}

/// Append an optional `i32` filter: `prefix $n suffix` when present.
fn push_opt_i32(qb: &mut SqlBuilder, prefix: &str, v: &Option<i32>, suffix: &str)
    ensures
        final(qb).sql@ == old(qb).sql@ + opt_i32_sql(
            prefix@,
            *v,
            suffix@,
            old(qb).binds@.len() as int,
        ),
        final(qb).binds@ == old(qb).binds@ + opt_i32_binds(*v),
{
    match v {
        Some(x) => {
            qb.push(prefix);
            qb.push_bind_i32(*x);
            qb.push(suffix);
        },
        None => {
            proof {
                assert(final(qb).sql@ =~= old(qb).sql@ + Seq::<char>::empty());
                assert(final(qb).binds@ =~= old(qb).binds@ + Seq::<BindValue>::empty());
            }
        },
    }
}

/// The text an optional text filter appends.
pub open spec fn opt_text_sql(prefix: Seq<char>, present: bool, start: int) -> Seq<char> {
    if present {
        prefix + placeholder(start + 1)
    } else {
        Seq::<char>::empty()
    }
}

/// The binds appended for an optional text filter carry exactly this view.
pub open spec fn opt_text_binds_match(bs: Seq<BindValue>, v: Option<Seq<char>>) -> bool {
    match v {
        Some(s) => bs.len() == 1 && bs[0] is Text && bs[0]->Text_0@ == s,
        None => bs.len() == 0,
    }
}

/// Append an optional equality filter on a text column.
fn push_opt_text(qb: &mut SqlBuilder, prefix: &str, v: &Option<String>) -> (appended: Ghost<
    Seq<BindValue>,
>)
    ensures
        final(qb).sql@ == old(qb).sql@ + opt_text_sql(
            prefix@,
            *v is Some,
            old(qb).binds@.len() as int,
        ),
        final(qb).binds@ == old(qb).binds@ + appended@,
        opt_text_binds_match(
            appended@,
            match *v {
                Some(s) => Some(s@),
                None => None,
            },
        ),
{
    match v {
        Some(s) => {
            qb.push(prefix);
            let ghost pre = qb.binds@;
            qb.push_bind_text(s.clone());
            let ghost appended = qb.binds@.skip(pre.len() as int);
            proof {
                assert(appended =~= seq![qb.binds@.last()]);
            }
            Ghost(appended)
        },
        None => {
            proof {
                assert(final(qb).sql@ =~= old(qb).sql@ + Seq::<char>::empty());
                assert(final(qb).binds@ =~= old(qb).binds@ + Seq::<BindValue>::empty());
            }
            Ghost(Seq::<BindValue>::empty())
        },
    }
}

/// The affinity-score SQL expression: with a player character, an index
/// into the per-record affinity array (normalizing the two identifier
/// encodings by integer division), otherwise the generic base-plus-race
/// sum.
pub open spec fn spec_affinity_expr(player_chara_id: Option<i32>) -> Seq<char> {
    match player_chara_id {
        None => "(COALESCE(i.base_affinity, 0) + COALESCE(i.race_affinity, 0))"@,
        Some(p) => {
            let chara_id: int = if p > 100000 {
                p as int / 100
            } else {
                p as int
            };
            let array_index = chara_id - 1000;
            "(COALESCE(i.affinity_scores["@ + spec_dec_int(array_index)
                + "], 0) + COALESCE(i.race_affinity, 0))"@
        },
    }
}

/// Render the affinity-score expression for an optional player character.
pub fn get_affinity_expression(player_chara_id: Option<i32>) -> (r: String)
    ensures
        r@ == spec_affinity_expr(player_chara_id),
{
    match player_chara_id {
        None => String::from_str("(COALESCE(i.base_affinity, 0) + COALESCE(i.race_affinity, 0))"),
        Some(p) => {
            let chara_id: i64 = if p > 100000 {
                (p as i64) / 100
            } else {
                p as i64
            };
            let array_index: i64 = chara_id - 1000;
            let mut r = String::from_str("(COALESCE(i.affinity_scores[");
            let num = i64_to_string(array_index);
            r.append(num.as_str());
            r.append("], 0) + COALESCE(i.race_affinity, 0))");
            proof {
                assert(r@ =~= spec_affinity_expr(player_chara_id));
            }
            r
        },
    }
}

/// The flattened "nice to have" factor identifiers of a repeatable field:
/// every comma-separated entry of every occurrence, trimmed and parsed,
/// unparseable entries dropped.
pub open spec fn spec_flat_ids(gs: Seq<Seq<char>>) -> Seq<i32>
    decreases gs.len(),
{
    if gs.len() == 0 {
        Seq::<i32>::empty()
    } else {
        spec_flat_ids(gs.drop_last()) + spec_group(gs.last())
    }
}

/// Parse and flatten the factor identifiers of a repeatable field.
#[verifier::loop_isolation(false)]
pub fn flatten_optional_ids(groups: &Vec<String>) -> (r: Vec<i32>)
    ensures
        r@ == spec_flat_ids(views_of_strings(groups@)),
{
    let ghost gs = views_of_strings(groups@);
    let mut r: Vec<i32> = Vec::new();
    let mut i: usize = 0;
    proof {
        assert(r@ =~= spec_flat_ids(gs.take(0)));
    }
    while i < groups.len()
        invariant
            i <= groups@.len(),
            r@ == spec_flat_ids(gs.take(i as int)),
        decreases groups@.len() - i,
    {
        let vals = crate::spark::parse_spark_group(groups[i].as_str());
        let mut j: usize = 0;
        while j < vals.len()
            invariant
                j <= vals@.len(),
                r@ == spec_flat_ids(gs.take(i as int)) + vals@.take(j as int),
            decreases vals@.len() - j,
        {
            r.push(vals[j]);
            proof {
                assert(vals@.take(j as int + 1) =~= vals@.take(j as int).push(vals@[j as int]));
                assert(r@ =~= spec_flat_ids(gs.take(i as int)) + vals@.take(j as int + 1));
            }
            j += 1;
        }
        proof {
            assert(vals@.take(vals@.len() as int) =~= vals@);
            assert(gs.take(i as int + 1).drop_last() =~= gs.take(i as int));
            assert(gs.take(i as int + 1).last() == gs[i as int]);
            assert(gs[i as int] == groups@[i as int]@);
            assert(r@ =~= spec_flat_ids(gs.take(i as int + 1)));
        }
        i += 1;
    }
    proof {
        assert(gs.take(gs.len() as int) =~= gs);
    }
    r
}

/// The nine per-level expansions of each "nice to have" factor identifier,
/// in order, with two's-complement wrap-around exactly as 32-bit arithmetic
/// gives it.
pub open spec fn spec_level_expand(ids: Seq<i32>) -> Seq<i32> {
    Seq::new(9 * ids.len(), |i: int| (ids[i / 9] * 10 + (i % 9) + 1) as i32)
}

/// Expand each factor identifier to its nine levels.
#[verifier::loop_isolation(false)]
pub fn expand_factor_levels(ids: &Vec<i32>) -> (r: Vec<i32>)
    ensures
        r@ == spec_level_expand(ids@),
{
    let mut r: Vec<i32> = Vec::new();
    let mut i: usize = 0;
    while i < ids.len()
        invariant
            i <= ids@.len(),
            r@.len() == 9 * i,
            forall|k: int| 0 <= k < r@.len() ==> #[trigger] r@[k] == spec_level_expand(ids@)[k],
        decreases ids@.len() - i,
    {
        let base = ids[i] as i64;
        let mut level: i64 = 1;
        while level <= 9
            invariant
                1 <= level <= 10,
                i < ids@.len(),
                base == ids@[i as int] as i64,
                r@.len() == 9 * i + (level - 1),
                forall|k: int| 0 <= k < r@.len() ==> #[trigger] r@[k] == spec_level_expand(ids@)[k],
            decreases 10 - level,
        {
            let ghost idx = r@.len() as int;
            let v = #[verifier::truncate] ((base * 10 + level) as i32);
            r.push(v);
            proof {
                assert(idx / 9 == i && idx % 9 == level - 1) by (nonlinear_arith)
                    requires
                        idx == 9 * i + (level - 1),
                        1 <= level <= 9,
                        0 <= i,
                {}
                assert(idx < 9 * ids@.len()) by (nonlinear_arith)
                    requires
                        idx == 9 * i + (level - 1),
                        1 <= level <= 9,
                        0 <= i < ids@.len(),
                {}
                assert(spec_level_expand(ids@)[idx] == (ids@[i as int] * 10 + (level - 1) + 1)
                    as i32);
                assert(v == (base * 10 + level) as i32);
            }
            level += 1;
        }
        i += 1;
    }
    proof {
        assert(r@ =~= spec_level_expand(ids@));
    }
    r
}

} // verus!

verus! {

use crate::spark::{
    is_main_parent_clause, is_single_group_clause, ArrayClause, ScalarClause,
};
use crate::sql::{
    add_main_parent_spark_conditions, add_spark_range_conditions, atoms_binds, atoms_sql,
    placeholders_sql, scalar_atoms_binds, scalar_atoms_sql,
};

/// The player identifier that drives affinity scoring and self-exclusion:
/// the desired main character when given, else the player character.
pub open spec fn spec_affinity_player(p: UnifiedSearchParams) -> Option<i32> {
    if p.desired_main_chara_id is Some {
        p.desired_main_chara_id
    } else {
        p.player_chara_id
    }
}

/// Resolve the affinity player identifier.
pub fn affinity_player(p: &UnifiedSearchParams) -> (r: Option<i32>)
    ensures
        r == spec_affinity_player(*p),
{
    match p.desired_main_chara_id {
        Some(v) => Some(v),
        None => p.player_chara_id,
    }
}

/// The `ORDER BY` clause for a resolved sort key: each key orders by its
/// column, always with an account-identifier tie-break so pagination is
/// stable; when "nice to have" scoring is present it takes priority, with
/// the sort key as tie-breaker.
pub open spec fn spec_order_clause(
    sort_by: Option<Seq<char>>,
    has_os: bool,
    affinity: Seq<char>,
) -> Seq<char> {
    let scored = " ORDER BY (white_sparks_score + main_white_factors_score) DESC, "@;
    if sort_by == Some("affinity"@) || sort_by == Some("affinity_score"@) {
        if has_os {
            " ORDER BY white_sparks_score DESC, main_white_factors_score DESC, "@ + affinity
                + " DESC, t.account_id ASC"@
        } else {
            " ORDER BY "@ + affinity + " DESC, t.account_id ASC"@
        }
    } else if sort_by == Some("win_count"@) {
        if has_os {
            scored + "i.win_count DESC, t.account_id ASC"@
        } else {
            " ORDER BY i.win_count DESC, t.account_id ASC"@
        }
    } else if sort_by == Some("white_count"@) {
        if has_os {
            scored + "i.white_count DESC, t.account_id ASC"@
        } else {
            " ORDER BY i.white_count DESC, t.account_id ASC"@
        }
    } else if sort_by == Some("parent_rank"@) {
        if has_os {
            scored + "i.parent_rank DESC, t.account_id ASC"@
        } else {
            " ORDER BY i.parent_rank DESC, t.account_id ASC"@
        }
    } else if sort_by == Some("submitted_at"@) || sort_by == Some("last_updated"@) {
        if has_os {
            scored + "t.last_updated DESC, t.account_id ASC"@
        } else {
            " ORDER BY t.last_updated DESC, t.account_id ASC"@
        }
    } else if sort_by == Some("main_blue_factors"@) {
        if has_os {
            scored + "i.main_blue_factors DESC, t.account_id ASC"@
        } else {
            " ORDER BY i.main_blue_factors DESC, t.account_id ASC"@
        }
    } else if sort_by == Some("main_pink_factors"@) {
        if has_os {
            scored + "i.main_pink_factors DESC, t.account_id ASC"@
        } else {
            " ORDER BY i.main_pink_factors DESC, t.account_id ASC"@
        }
    } else if sort_by == Some("main_green_factors"@) {
        if has_os {
            scored + "i.main_green_factors DESC, t.account_id ASC"@
        } else {
            " ORDER BY i.main_green_factors DESC, t.account_id ASC"@
        }
    } else if sort_by == Some("main_white_count"@) {
        if has_os {
            scored + "i.main_white_count DESC, t.account_id ASC"@
        } else {
            " ORDER BY i.main_white_count DESC, t.account_id ASC"@
        }
    } else if sort_by == Some("experience"@) {
        if has_os {
            scored + "sc.experience DESC NULLS LAST, t.account_id ASC"@
        } else {
            " ORDER BY sc.experience DESC NULLS LAST, t.account_id ASC"@
        }
    } else if sort_by == Some("limit_break_count"@) {
        if has_os {
            scored + "sc.limit_break_count DESC NULLS LAST, t.account_id ASC"@
        } else {
            " ORDER BY sc.limit_break_count DESC NULLS LAST, t.account_id ASC"@
        }
    } else if sort_by == Some("follower_num"@) {
        if has_os {
            scored + "COALESCE(t.follower_num, 999999) ASC, t.account_id ASC"@
        } else {
            " ORDER BY COALESCE(t.follower_num, 999999) ASC, t.account_id ASC"@
        }
    } else if sort_by == Some("white_sparks_score"@) || sort_by == Some(
        "main_white_factors_score"@,
    ) {
        scored + "t.account_id ASC"@
    } else {
        if has_os {
            scored + affinity + " DESC, t.account_id ASC"@
        } else {
            " ORDER BY "@ + affinity + " DESC, t.account_id ASC"@
        }
    }
}

/// Whether the optional sort key equals this name.
fn sort_is(sort_by: &Option<String>, name: &str) -> (r: bool)
    ensures
        r == (match *sort_by {
            Some(s) => Some(s@),
            None => None,
        } == Some(name@)),
{
    match sort_by {
        Some(s) => crate::text::str_eq(s.as_str(), name),
        None => false,
    }
}

/// Render the `ORDER BY` clause for the request's sort key.
pub fn order_clause(sort_by: &Option<String>, has_os: bool, affinity: &str) -> (r: String)
    ensures
        r@ == spec_order_clause(
            match *sort_by {
                Some(s) => Some(s@),
                None => None,
            },
            has_os,
            affinity@,
        ),
{
    let scored = " ORDER BY (white_sparks_score + main_white_factors_score) DESC, ";
    if sort_is(sort_by, "affinity") || sort_is(sort_by, "affinity_score") {
        if has_os {
            let mut r = String::from_str(
                " ORDER BY white_sparks_score DESC, main_white_factors_score DESC, ",
            );
            r.append(affinity);
            r.append(" DESC, t.account_id ASC");
            r
        } else {
            let mut r = String::from_str(" ORDER BY ");
            r.append(affinity);
            r.append(" DESC, t.account_id ASC");
            r
        }
    } else if sort_is(sort_by, "win_count") {
        if has_os {
            String::from_str(scored).concat("i.win_count DESC, t.account_id ASC")
        } else {
            String::from_str(" ORDER BY i.win_count DESC, t.account_id ASC")
        }
    } else if sort_is(sort_by, "white_count") {
        if has_os {
            String::from_str(scored).concat("i.white_count DESC, t.account_id ASC")
        } else {
            String::from_str(" ORDER BY i.white_count DESC, t.account_id ASC")
        }
    } else if sort_is(sort_by, "parent_rank") {
        if has_os {
            String::from_str(scored).concat("i.parent_rank DESC, t.account_id ASC")
        } else {
            String::from_str(" ORDER BY i.parent_rank DESC, t.account_id ASC")
        }
    } else if sort_is(sort_by, "submitted_at") || sort_is(sort_by, "last_updated") {
        if has_os {
            String::from_str(scored).concat("t.last_updated DESC, t.account_id ASC")
        } else {
            String::from_str(" ORDER BY t.last_updated DESC, t.account_id ASC")
        }
    } else if sort_is(sort_by, "main_blue_factors") {
        if has_os {
            String::from_str(scored).concat("i.main_blue_factors DESC, t.account_id ASC")
        } else {
            String::from_str(" ORDER BY i.main_blue_factors DESC, t.account_id ASC")
        }
    } else if sort_is(sort_by, "main_pink_factors") {
        if has_os {
            String::from_str(scored).concat("i.main_pink_factors DESC, t.account_id ASC")
        } else {
            String::from_str(" ORDER BY i.main_pink_factors DESC, t.account_id ASC")
        }
    } else if sort_is(sort_by, "main_green_factors") {
        if has_os {
            String::from_str(scored).concat("i.main_green_factors DESC, t.account_id ASC")
        } else {
            String::from_str(" ORDER BY i.main_green_factors DESC, t.account_id ASC")
        }
    } else if sort_is(sort_by, "main_white_count") {
        if has_os {
            String::from_str(scored).concat("i.main_white_count DESC, t.account_id ASC")
        } else {
            String::from_str(" ORDER BY i.main_white_count DESC, t.account_id ASC")
        }
    } else if sort_is(sort_by, "experience") {
        if has_os {
            String::from_str(scored).concat("sc.experience DESC NULLS LAST, t.account_id ASC")
        } else {
            String::from_str(" ORDER BY sc.experience DESC NULLS LAST, t.account_id ASC")
        }
    } else if sort_is(sort_by, "limit_break_count") {
        if has_os {
            String::from_str(scored).concat(
                "sc.limit_break_count DESC NULLS LAST, t.account_id ASC",
            )
        } else {
            String::from_str(" ORDER BY sc.limit_break_count DESC NULLS LAST, t.account_id ASC")
        }
    } else if sort_is(sort_by, "follower_num") {
        if has_os {
            String::from_str(scored).concat("COALESCE(t.follower_num, 999999) ASC, t.account_id ASC")
        } else {
            String::from_str(" ORDER BY COALESCE(t.follower_num, 999999) ASC, t.account_id ASC")
        }
    } else if sort_is(sort_by, "white_sparks_score") || sort_is(sort_by, "main_white_factors_score") {
        String::from_str(scored).concat("t.account_id ASC")
    } else {
        if has_os {
            let mut r = String::from_str(scored);
            r.append(affinity);
            r.append(" DESC, t.account_id ASC");
            r
        } else {
            let mut r = String::from_str(" ORDER BY ");
            r.append(affinity);
            r.append(" DESC, t.account_id ASC");
            r
        }
    }
}

} // verus!

verus! {

use crate::spark::views_of_vecs;

/// The text of main-parent clauses rendered for each group in turn.
pub open spec fn mp_list_sql(
    col: Seq<char>,
    gs: Seq<Seq<i32>>,
    cls: Seq<ScalarClause>,
    start: int,
) -> Seq<char>
    decreases gs.len(),
{
    if gs.len() == 0 || cls.len() == 0 {
        Seq::<char>::empty()
    } else {
        let front = mp_list_sql(col, gs.drop_last(), cls.drop_last(), start);
        if gs.last().len() == 0 {
            front
        } else {
            front + " AND ("@ + scalar_atoms_sql(
                col,
                cls.last().atoms@,
                start + mp_list_binds(gs.drop_last(), cls.drop_last()).len(),
            ) + ")"@
        }
    }
}

/// The binds of main-parent clauses rendered for each group in turn.
pub open spec fn mp_list_binds(gs: Seq<Seq<i32>>, cls: Seq<ScalarClause>) -> Seq<BindValue>
    decreases gs.len(),
{
    if gs.len() == 0 || cls.len() == 0 {
        Seq::<BindValue>::empty()
    } else {
        let front = mp_list_binds(gs.drop_last(), cls.drop_last());
        if gs.last().len() == 0 {
            front
        } else {
            front + scalar_atoms_binds(cls.last().atoms@)
        }
    }
}

/// Append the main-parent predicate of each group over a scalar column.
#[verifier::loop_isolation(false)]
pub fn add_main_parent_group_list(
    qb: &mut SqlBuilder,
    column: &str,
    groups: &Vec<Vec<i32>>,
) -> (cls: Vec<ScalarClause>)
    ensures
        cls@.len() == groups@.len(),
        forall|i: int|
            0 <= i < cls@.len() ==> is_main_parent_clause(
                #[trigger] cls@[i],
                views_of_vecs(groups@)[i],
            ),
        final(qb).sql@ == old(qb).sql@ + mp_list_sql(
            column@,
            views_of_vecs(groups@),
            cls@,
            old(qb).binds@.len() as int,
        ),
        final(qb).binds@ == old(qb).binds@ + mp_list_binds(views_of_vecs(groups@), cls@),
{
    let ghost gs = views_of_vecs(groups@);
    let ghost sql0 = qb.sql@;
    let ghost binds0 = qb.binds@;
    let ghost start = qb.binds@.len() as int;
    let mut cls: Vec<ScalarClause> = Vec::new();
    let mut i: usize = 0;
    proof {
        assert(qb.sql@ =~= sql0 + mp_list_sql(column@, gs.take(0), cls@.take(0), start));
        assert(qb.binds@ =~= binds0 + mp_list_binds(gs.take(0), cls@.take(0)));
    }
    while i < groups.len()
        invariant
            i <= groups@.len(),
            cls@.len() == i,
            forall|m: int| 0 <= m < i ==> is_main_parent_clause(#[trigger] cls@[m], gs[m]),
            qb.sql@ == sql0 + mp_list_sql(column@, gs.take(i as int), cls@, start),
            qb.binds@ == binds0 + mp_list_binds(gs.take(i as int), cls@),
        decreases groups@.len() - i,
    {
        let ghost cls0 = cls@;
        let cl = add_main_parent_spark_conditions(qb, column, &groups[i]);
        cls.push(cl);
        proof {
            assert(gs[i as int] == groups@[i as int]@);
            assert(gs.take(i as int + 1).drop_last() =~= gs.take(i as int));
            assert(gs.take(i as int + 1).last() == gs[i as int]);
            assert(cls@.drop_last() =~= cls0);
            assert(cls@.last() == cl);
            assert(mp_list_sql(column@, gs.take(i as int + 1), cls@, start) == (
            if gs[i as int].len() == 0 {
                mp_list_sql(column@, gs.take(i as int), cls0, start)
            } else {
                mp_list_sql(column@, gs.take(i as int), cls0, start) + " AND ("@
                    + scalar_atoms_sql(
                    column@,
                    cl.atoms@,
                    start + mp_list_binds(gs.take(i as int), cls0).len(),
                ) + ")"@
            }));
            assert(qb.sql@ =~= sql0 + mp_list_sql(column@, gs.take(i as int + 1), cls@, start));
            assert(qb.binds@ =~= binds0 + mp_list_binds(gs.take(i as int + 1), cls@));
        }
        i += 1;
    }
    proof {
        assert(gs.take(gs.len() as int) =~= gs);
    }
    cls
}

/// The text of single-group clauses rendered for each group in turn.
pub open spec fn range_list_sql(
    col: Seq<char>,
    gs: Seq<Seq<i32>>,
    cls: Seq<ArrayClause>,
    start: int,
) -> Seq<char>
    decreases gs.len(),
{
    if gs.len() == 0 || cls.len() == 0 {
        Seq::<char>::empty()
    } else {
        let front = range_list_sql(col, gs.drop_last(), cls.drop_last(), start);
        if gs.last().len() == 0 {
            front
        } else {
            front + " AND ("@ + atoms_sql(
                col,
                cls.last().atoms@,
                start + range_list_binds(gs.drop_last(), cls.drop_last()).len(),
            ) + ")"@
        }
    }
}

/// The binds of single-group clauses rendered for each group in turn.
pub open spec fn range_list_binds(gs: Seq<Seq<i32>>, cls: Seq<ArrayClause>) -> Seq<BindValue>
    decreases gs.len(),
{
    if gs.len() == 0 || cls.len() == 0 {
        Seq::<BindValue>::empty()
    } else {
        let front = range_list_binds(gs.drop_last(), cls.drop_last());
        if gs.last().len() == 0 {
            front
        } else {
            front + atoms_binds(cls.last().atoms@)
        }
    }
}

/// Append the single-group spark predicate of each group over an array
/// column.
#[verifier::loop_isolation(false)]
pub fn add_spark_range_group_list(
    qb: &mut SqlBuilder,
    column: &str,
    groups: &Vec<Vec<i32>>,
) -> (cls: Vec<ArrayClause>)
    ensures
        cls@.len() == groups@.len(),
        forall|i: int|
            0 <= i < cls@.len() ==> is_single_group_clause(
                #[trigger] cls@[i],
                views_of_vecs(groups@)[i],
            ),
        final(qb).sql@ == old(qb).sql@ + range_list_sql(
            column@,
            views_of_vecs(groups@),
            cls@,
            old(qb).binds@.len() as int,
        ),
        final(qb).binds@ == old(qb).binds@ + range_list_binds(views_of_vecs(groups@), cls@),
{
    let ghost gs = views_of_vecs(groups@);
    let ghost sql0 = qb.sql@;
    let ghost binds0 = qb.binds@;
    let ghost start = qb.binds@.len() as int;
    let mut cls: Vec<ArrayClause> = Vec::new();
    let mut i: usize = 0;
    proof {
        assert(qb.sql@ =~= sql0 + range_list_sql(column@, gs.take(0), cls@.take(0), start));
        assert(qb.binds@ =~= binds0 + range_list_binds(gs.take(0), cls@.take(0)));
    }
    while i < groups.len()
        invariant
            i <= groups@.len(),
            cls@.len() == i,
            forall|m: int| 0 <= m < i ==> is_single_group_clause(#[trigger] cls@[m], gs[m]),
            qb.sql@ == sql0 + range_list_sql(column@, gs.take(i as int), cls@, start),
            qb.binds@ == binds0 + range_list_binds(gs.take(i as int), cls@),
        decreases groups@.len() - i,
    {
        let ghost cls0 = cls@;
        let cl = add_spark_range_conditions(qb, column, &groups[i]);
        cls.push(cl);
        proof {
            assert(gs[i as int] == groups@[i as int]@);
            assert(gs.take(i as int + 1).drop_last() =~= gs.take(i as int));
            assert(gs.take(i as int + 1).last() == gs[i as int]);
            assert(cls@.drop_last() =~= cls0);
            assert(cls@.last() == cl);
            assert(qb.sql@ =~= sql0 + range_list_sql(column@, gs.take(i as int + 1), cls@, start));
            assert(qb.binds@ =~= binds0 + range_list_binds(gs.take(i as int + 1), cls@));
        }
        i += 1;
    }
    proof {
        assert(gs.take(gs.len() as int) =~= gs);
    }
    cls
}

/// The text of the "every stat at this star" shortcut when its flag is on.
pub open spec fn nine_star_sql(flag: Option<bool>, col: Seq<char>, start: int) -> Seq<char> {
    if flag == Some(true) {
        " AND "@ + col + " && ARRAY["@ + placeholders_sql(start, 6) + "]::int[]"@
    } else {
        Seq::<char>::empty()
    }
}

/// The binds of the shortcut: the six `stat*100+9` values.
pub open spec fn nine_star_binds(flag: Option<bool>) -> Seq<BindValue> {
    if flag == Some(true) {
        Seq::new(6, |i: int| BindValue::Int(((i + 1) * 100 + 9) as i32))
    } else {
        Seq::<BindValue>::empty()
    }
}

/// Append the nine-star shortcut when its flag is set.
pub fn push_nine_star(qb: &mut SqlBuilder, column: &str, flag: &Option<bool>)
    ensures
        final(qb).sql@ == old(qb).sql@ + nine_star_sql(*flag, column@, old(qb).binds@.len() as int),
        final(qb).binds@ == old(qb).binds@ + nine_star_binds(*flag),
{
    let on = match flag {
        Some(true) => true,
        _ => false,
    };
    if on {
        let a = crate::sql::add_9star_spark_conditions(qb, column, 9);
        proof {
            let vs = a->Overlap_0;
            assert(vs@.len() == 6);
            assert(crate::sql::atom_binds(a) =~= nine_star_binds(*flag)) by {
                assert forall|i: int| 0 <= i < 6 implies crate::sql::int_binds(vs@)[i]
                    == nine_star_binds(*flag)[i] by {
                    assert(vs@[i] == ((i + 1) * 100 + 9) as i32);
                }
            }
        }
    } else {
        proof {
            assert(final(qb).sql@ =~= old(qb).sql@ + Seq::<char>::empty());
            assert(final(qb).binds@ =~= old(qb).binds@ + Seq::<BindValue>::empty());
        }
    }
}

} // verus!

verus! {

use crate::spark::{
    lemma_spec_groups_len, multi_group_shape, process_spark_groups,
    ArrayCond,
};
use crate::sql::{
    add_multi_group_spark_conditions, cond_binds, cond_sql, int_binds, push_bind_list,
};

/// The predicate values built for one query, returned so that callers can
/// evaluate or inspect exactly what was rendered.
pub struct QueryConds {
    pub blue: ArrayCond,
    pub pink: ArrayCond,
    pub green: ArrayCond,
    pub white: ArrayCond,
    pub mp_blue: Vec<ScalarClause>,
    pub mp_pink: Vec<ScalarClause>,
    pub mp_green: Vec<ScalarClause>,
    pub mp_white: Vec<ArrayClause>,
    pub main_white: Vec<ArrayClause>,
}

/// How the predicate values relate to the request: each spark column's
/// condition has the multi-group shape of its parsed groups, and each
/// main-parent or main-white list holds one clause per parsed group.
pub open spec fn conds_ok(c: QueryConds, p: UnifiedSearchParams) -> bool {
    &&& multi_group_shape(c.blue, spec_groups(views_of_strings(p.blue_sparks@)))
    &&& multi_group_shape(c.pink, spec_groups(views_of_strings(p.pink_sparks@)))
    &&& multi_group_shape(c.green, spec_groups(views_of_strings(p.green_sparks@)))
    &&& multi_group_shape(c.white, spec_groups(views_of_strings(p.white_sparks@)))
    &&& c.mp_blue@.len() == spec_groups(views_of_strings(p.main_parent_blue_sparks@)).len()
    &&& forall|i: int|
        0 <= i < c.mp_blue@.len() ==> is_main_parent_clause(
            #[trigger] c.mp_blue@[i],
            spec_groups(views_of_strings(p.main_parent_blue_sparks@))[i],
        )
    &&& c.mp_pink@.len() == spec_groups(views_of_strings(p.main_parent_pink_sparks@)).len()
    &&& forall|i: int|
        0 <= i < c.mp_pink@.len() ==> is_main_parent_clause(
            #[trigger] c.mp_pink@[i],
            spec_groups(views_of_strings(p.main_parent_pink_sparks@))[i],
        )
    &&& c.mp_green@.len() == spec_groups(views_of_strings(p.main_parent_green_sparks@)).len()
    &&& forall|i: int|
        0 <= i < c.mp_green@.len() ==> is_main_parent_clause(
            #[trigger] c.mp_green@[i],
            spec_groups(views_of_strings(p.main_parent_green_sparks@))[i],
        )
    &&& c.mp_white@.len() == spec_groups(views_of_strings(p.main_parent_white_sparks@)).len()
    &&& forall|i: int|
        0 <= i < c.mp_white@.len() ==> is_single_group_clause(
            #[trigger] c.mp_white@[i],
            spec_groups(views_of_strings(p.main_parent_white_sparks@))[i],
        )
    &&& c.main_white@.len() == spec_groups(views_of_strings(p.main_white_factors@)).len()
    &&& forall|i: int|
        0 <= i < c.main_white@.len() ==> is_single_group_clause(
            #[trigger] c.main_white@[i],
            spec_groups(views_of_strings(p.main_white_factors@))[i],
        )
}

/// One bind slot when the optional value is present.
pub open spec fn cnt(o: Option<i32>) -> int {
    if o is Some {
        1
    } else {
        0
    }
}

/// The bound value of the rarity filter: one less than the requested
/// rarity, saturating at the bottom of `i32`.
pub open spec fn rarity_bind(v: i32) -> i32 {
    if v == i32::MIN {
        i32::MIN
    } else {
        (v - 1) as i32
    }
}

} // verus!


verus! {

/// The trainer-name match pattern of the request, when present: the name
/// wrapped in wildcards.
pub open spec fn spec_name_pattern(p: UnifiedSearchParams) -> Option<Seq<char>> {
    match p.trainer_name {
        Some(s) => Some("%"@ + s@ + "%"@),
        None => None,
    }
}

/// The self-exclusion identifier: the player character, unless a desired
/// main character is requested (which takes precedence over exclusion).
pub open spec fn spec_excl(p: UnifiedSearchParams) -> Option<i32> {
    if p.desired_main_chara_id is None {
        p.player_chara_id
    } else {
        None
    }
}

} // verus!

verus! {

/// The SELECT head of the search statement: columns, affinity expression,
/// optional scoring columns and joins.  Binds are numbered from zero.
#[verifier::opaque]
pub open spec fn select_head_sql(p: UnifiedSearchParams, ow: Seq<i32>, om: Seq<i32>) -> Seq<char> {
    let aff = spec_affinity_expr(spec_affinity_player(p));
    let s =
        "SELECT i.account_id, t.name as trainer_name, t.follower_num, t.last_updated, i.inheritance_id, i.main_parent_id, i.parent_left_id, i.parent_right_id, i.parent_rank, i.parent_rarity, i.blue_sparks, i.pink_sparks, i.green_sparks, i.white_sparks, i.win_count, i.white_count, i.main_blue_factors, i.main_pink_factors, i.main_green_factors, i.main_white_factors, i.main_white_count, ("@
        + aff + ") as affinity_score"@;
    let s = if ow.len() > 0 {
        s + ", calculate_sparks_score(i.white_sparks, ARRAY["@ + placeholders_sql(
            0,
            ow.len() as int,
        ) + "]::int[]) AS white_sparks_score"@
    } else {
        s + ", 0 AS white_sparks_score"@
    };
    let s = if om.len() > 0 {
        s + ", calculate_sparks_score(i.main_white_factors, ARRAY["@ + placeholders_sql(
            ow.len() as int,
            om.len() as int,
        ) + "]::int[]) AS main_white_factors_score"@
    } else {
        s + ", 0 AS main_white_factors_score"@
    };
    s
        + ", sc.support_card_id, sc.limit_break_count, sc.experience FROM inheritance i INNER JOIN trainer t ON i.account_id = t.account_id LEFT JOIN support_card sc ON i.account_id = sc.account_id WHERE 1=1"@
}

/// Append the SELECT head to a fresh builder.
#[verifier::rlimit(60)]
fn push_select_head(qb: &mut SqlBuilder, p: &UnifiedSearchParams, ow: &Vec<i32>, om: &Vec<i32>)
    requires
        old(qb).sql@.len() == 0,
        old(qb).binds@.len() == 0,
    ensures
        final(qb).sql@ == select_head_sql(*p, ow@, om@),
        final(qb).binds@ == int_binds(ow@) + int_binds(om@),
{
    proof {
        reveal(select_head_sql);
    }
    let ap = affinity_player(p);
    let aff = get_affinity_expression(ap);
    qb.push(
        "SELECT i.account_id, t.name as trainer_name, t.follower_num, t.last_updated, i.inheritance_id, i.main_parent_id, i.parent_left_id, i.parent_right_id, i.parent_rank, i.parent_rarity, i.blue_sparks, i.pink_sparks, i.green_sparks, i.white_sparks, i.win_count, i.white_count, i.main_blue_factors, i.main_pink_factors, i.main_green_factors, i.main_white_factors, i.main_white_count, (",
    );
    proof {
        assert(qb.sql@ =~= "SELECT i.account_id, t.name as trainer_name, t.follower_num, t.last_updated, i.inheritance_id, i.main_parent_id, i.parent_left_id, i.parent_right_id, i.parent_rank, i.parent_rarity, i.blue_sparks, i.pink_sparks, i.green_sparks, i.white_sparks, i.win_count, i.white_count, i.main_blue_factors, i.main_pink_factors, i.main_green_factors, i.main_white_factors, i.main_white_count, ("@);
    }
    qb.push(aff.as_str());
    qb.push(") as affinity_score");
    if ow.len() > 0 {
        qb.push(", calculate_sparks_score(i.white_sparks, ARRAY[");
        push_bind_list(qb, ow);
        qb.push("]::int[]) AS white_sparks_score");
        proof {
            assert(qb.binds@ =~= int_binds(ow@));
        }
    } else {
        qb.push(", 0 AS white_sparks_score");
        proof {
            assert(qb.binds@ =~= int_binds(ow@));
        }
    }
    if om.len() > 0 {
        qb.push(", calculate_sparks_score(i.main_white_factors, ARRAY[");
        push_bind_list(qb, om);
        qb.push("]::int[]) AS main_white_factors_score");
    } else {
        qb.push(", 0 AS main_white_factors_score");
        proof {
            assert(qb.binds@ =~= int_binds(ow@) + int_binds(om@));
        }
    }
    qb.push(
        ", sc.support_card_id, sc.limit_break_count, sc.experience FROM inheritance i INNER JOIN trainer t ON i.account_id = t.account_id LEFT JOIN support_card sc ON i.account_id = sc.account_id WHERE 1=1",
    );
}

/// The support-card, follower-ceiling and self-exclusion filters.
pub open spec fn sc_filters_sql(p: UnifiedSearchParams, n0: int) -> Seq<char> {
    let s = opt_i32_sql(" AND sc.support_card_id = "@, p.support_card_id, ""@, n0);
    let n = n0 + cnt(p.support_card_id);
    let s = s + opt_i32_sql(" AND sc.limit_break_count >= "@, p.min_limit_break, ""@, n);
    let n = n + cnt(p.min_limit_break);
    let s = s + opt_i32_sql(" AND sc.limit_break_count <= "@, p.max_limit_break, ""@, n);
    let n = n + cnt(p.max_limit_break);
    let s = s + opt_i32_sql(" AND sc.experience >= "@, p.min_experience, ""@, n);
    let n = n + cnt(p.min_experience);
    let s = s + " AND (t.follower_num IS NULL OR t.follower_num < 1000)"@;
    let s = s + opt_i32_sql(" AND i.main_chara_id != "@, spec_excl(p), ""@, n);
    s
}

/// The binds of the support-card, follower and exclusion filters.
pub open spec fn sc_filters_binds(p: UnifiedSearchParams) -> Seq<BindValue> {
    let b = opt_i32_binds(p.support_card_id);
    let b = b + opt_i32_binds(p.min_limit_break);
    let b = b + opt_i32_binds(p.max_limit_break);
    let b = b + opt_i32_binds(p.min_experience);
    let b = b + opt_i32_binds(spec_excl(p));
    b
}

/// Append the support-card, follower and exclusion filters.
#[verifier::rlimit(100)]
fn push_sc_filters(qb: &mut SqlBuilder, p: &UnifiedSearchParams)
    ensures
        final(qb).sql@ == old(qb).sql@ + sc_filters_sql(*p, old(qb).binds@.len() as int),
        final(qb).binds@ == old(qb).binds@ + sc_filters_binds(*p),
{
    push_opt_i32(qb, " AND sc.support_card_id = ", &p.support_card_id, "");
    push_opt_i32(qb, " AND sc.limit_break_count >= ", &p.min_limit_break, "");
    push_opt_i32(qb, " AND sc.limit_break_count <= ", &p.max_limit_break, "");
    push_opt_i32(qb, " AND sc.experience >= ", &p.min_experience, "");
    qb.push(" AND (t.follower_num IS NULL OR t.follower_num < 1000)");
    let excl: Option<i32> = match p.desired_main_chara_id {
        Some(_) => None,
        None => p.player_chara_id,
    };
    push_opt_i32(qb, " AND i.main_chara_id != ", &excl, "");
}

/// The trainer-identifier filter.
pub open spec fn tid_filter_sql(p: UnifiedSearchParams, n0: int) -> Seq<char> {
    opt_text_sql(" AND t.account_id = "@, p.trainer_id is Some, n0)
}

/// Number of binds the trainer-identifier filter makes.
pub open spec fn tid_count(p: UnifiedSearchParams) -> int {
    if p.trainer_id is Some {
        1
    } else {
        0
    }
}

/// Append the trainer-identifier filter.
fn push_trainer_id(qb: &mut SqlBuilder, p: &UnifiedSearchParams) -> (tid: Ghost<Seq<BindValue>>)
    ensures
        final(qb).sql@ == old(qb).sql@ + tid_filter_sql(*p, old(qb).binds@.len() as int),
        final(qb).binds@ == old(qb).binds@ + tid@,
        tid@.len() == tid_count(*p),
        opt_text_binds_match(
            tid@,
            match p.trainer_id {
                Some(s) => Some(s@),
                None => None,
            },
        ),
{
    push_opt_text(qb, " AND t.account_id = ", &p.trainer_id)
}

/// The trainer-name substring filter.
pub open spec fn tname_filter_sql(p: UnifiedSearchParams, n0: int) -> Seq<char> {
    if p.trainer_name is Some {
        " AND t.name ILIKE "@ + placeholder(n0 + 1)
    } else {
        Seq::<char>::empty()
    }
}

/// Number of binds the trainer-name filter makes.
pub open spec fn tname_count(p: UnifiedSearchParams) -> int {
    if p.trainer_name is Some {
        1
    } else {
        0
    }
}

/// Append the trainer-name substring filter, binding the wildcard-wrapped
/// pattern.
fn push_trainer_name(qb: &mut SqlBuilder, p: &UnifiedSearchParams) -> (tname: Ghost<
    Seq<BindValue>,
>)
    ensures
        final(qb).sql@ == old(qb).sql@ + tname_filter_sql(*p, old(qb).binds@.len() as int),
        final(qb).binds@ == old(qb).binds@ + tname@,
        tname@.len() == tname_count(*p),
        opt_text_binds_match(tname@, spec_name_pattern(*p)),
{
    let ghost tname_binds: Seq<BindValue>;
    match &p.trainer_name {
        Some(name) => {
            qb.push(" AND t.name ILIKE ");
            let mut pattern = String::from_str("%");
            pattern.append(name.as_str());
            pattern.append("%");
            proof {
                reveal_strlit("%");
            }
            let ghost pre = qb.binds@;
            qb.push_bind_text(pattern);
            proof {
                tname_binds = qb.binds@.skip(pre.len() as int);
                assert(tname_binds =~= seq![qb.binds@.last()]);
                assert(qb.binds@ =~= pre + tname_binds);
            }
        },
        None => {
            proof {
                tname_binds = Seq::<BindValue>::empty();
                assert(qb.binds@ =~= qb.binds@ + tname_binds);
            }
        },
    }
    Ghost(tname_binds)
}


/// The parent-identifier filters.
pub open spec fn parent_id_sql(p: UnifiedSearchParams, n0: int) -> Seq<char> {
    let s = opt_i32_sql(" AND i.main_parent_id = "@, p.main_parent_id, ""@, n0);
    let n = n0 + cnt(p.main_parent_id);
    let s = s + opt_i32_sql(" AND i.main_chara_id = "@, p.desired_main_chara_id, ""@, n);
    let n = n + cnt(p.desired_main_chara_id);
    let s = s + opt_i32_sql(" AND i.parent_left_id = "@, p.parent_left_id, ""@, n);
    s
}

/// The binds of the parent-identifier filters.
pub open spec fn parent_id_binds(p: UnifiedSearchParams) -> Seq<BindValue> {
    let b = opt_i32_binds(p.main_parent_id);
    let b = b + opt_i32_binds(p.desired_main_chara_id);
    let b = b + opt_i32_binds(p.parent_left_id);
    b
}

/// Append the parent-identifier filters.
#[verifier::rlimit(100)]
fn push_parent_ids(qb: &mut SqlBuilder, p: &UnifiedSearchParams)
    ensures
        final(qb).sql@ == old(qb).sql@ + parent_id_sql(*p, old(qb).binds@.len() as int),
        final(qb).binds@ == old(qb).binds@ + parent_id_binds(*p),
{
    push_opt_i32(qb, " AND i.main_parent_id = ", &p.main_parent_id, "");
    push_opt_i32(qb, " AND i.main_chara_id = ", &p.desired_main_chara_id, "");
    push_opt_i32(qb, " AND i.parent_left_id = ", &p.parent_left_id, "");
}

/// The identity and lineage filters, up to the rarity bound.
pub open spec fn id_filters_sql(p: UnifiedSearchParams, n0: int) -> Seq<char> {
    let s = parent_id_sql(p, n0);
    let n = n0 + parent_id_binds(p).len();
    let s = s + opt_i32_sql(" AND i.parent_right_id = "@, p.parent_right_id, ""@, n);
    let n = n + cnt(p.parent_right_id);
    let s = s + opt_i32_sql(" AND i.parent_rarity >= "@, p.parent_rank, ""@, n);
    let n = n + cnt(p.parent_rank);
    let s = s + rarity_filter_sql(p, n);
    s
}

/// The binds of the identity and lineage filters.
pub open spec fn id_filters_binds(p: UnifiedSearchParams) -> Seq<BindValue> {
    let b = parent_id_binds(p);
    let b = b + opt_i32_binds(p.parent_right_id);
    let b = b + opt_i32_binds(p.parent_rank);
    let b = b + rarity_filter_binds(p);
    b
}

/// The rarity filter alone.
pub open spec fn rarity_filter_sql(p: UnifiedSearchParams, n0: int) -> Seq<char> {
    if p.parent_rarity is Some {
        " AND i.parent_rank >= "@ + placeholder(n0 + 1)
    } else {
        Seq::<char>::empty()
    }
}

/// The bind of the rarity filter.
pub open spec fn rarity_filter_binds(p: UnifiedSearchParams) -> Seq<BindValue> {
    if p.parent_rarity is Some {
        seq![BindValue::Int(rarity_bind(p.parent_rarity->0))]
    } else {
        Seq::<BindValue>::empty()
    }
}

/// Append the rarity filter: one less than the requested rarity, bounded.
fn push_rarity_filter(qb: &mut SqlBuilder, p: &UnifiedSearchParams)
    ensures
        final(qb).sql@ == old(qb).sql@ + rarity_filter_sql(*p, old(qb).binds@.len() as int),
        final(qb).binds@ == old(qb).binds@ + rarity_filter_binds(*p),
{
    match p.parent_rarity {
        Some(v) => {
            qb.push(" AND i.parent_rank >= ");
            let bound = if v == i32::MIN {
                i32::MIN
            } else {
                v - 1
            };
            let ghost pre = qb.binds@;
            qb.push_bind_i32(bound);
            proof {
                assert(bound == rarity_bind(v));
                assert(qb.binds@ =~= pre + rarity_filter_binds(*p));
            }
        },
        None => {
            proof {
                assert(qb.sql@ =~= qb.sql@ + rarity_filter_sql(*p, qb.binds@.len() as int));
                assert(qb.binds@ =~= qb.binds@ + rarity_filter_binds(*p));
            }
        },
    }
}

/// Append the identity and lineage filters.
#[verifier::rlimit(100)]
fn push_id_filters(qb: &mut SqlBuilder, p: &UnifiedSearchParams)
    ensures
        final(qb).sql@ == old(qb).sql@ + id_filters_sql(*p, old(qb).binds@.len() as int),
        final(qb).binds@ == old(qb).binds@ + id_filters_binds(*p),
{
    push_parent_ids(qb, p);
    push_opt_i32(qb, " AND i.parent_right_id = ", &p.parent_right_id, "");
    push_opt_i32(qb, " AND i.parent_rarity >= ", &p.parent_rank, "");
    push_rarity_filter(qb, p);
}

} // verus!

verus! {

/// The four spark-group conditions, one per color column.
#[verifier::opaque]
pub open spec fn spark_conds_sql(
    b: ArrayCond,
    pk: ArrayCond,
    g: ArrayCond,
    w: ArrayCond,
    n0: int,
) -> Seq<char> {
    let s = cond_sql("i.blue_sparks"@, b.clauses@, n0);
    let n = n0 + cond_binds(b.clauses@).len();
    let s = s + cond_sql("i.pink_sparks"@, pk.clauses@, n);
    let n = n + cond_binds(pk.clauses@).len();
    let s = s + cond_sql("i.green_sparks"@, g.clauses@, n);
    let n = n + cond_binds(g.clauses@).len();
    let s = s + cond_sql("i.white_sparks"@, w.clauses@, n);
    s
}

/// The binds of the four spark-group conditions.
#[verifier::opaque]
pub open spec fn spark_conds_binds(
    b: ArrayCond,
    pk: ArrayCond,
    g: ArrayCond,
    w: ArrayCond,
) -> Seq<BindValue> {
    let bs = cond_binds(b.clauses@);
    let bs = bs + cond_binds(pk.clauses@);
    let bs = bs + cond_binds(g.clauses@);
    let bs = bs + cond_binds(w.clauses@);
    bs
}

/// Append the spark-group conditions of all four colors.
#[verifier::rlimit(100)]
fn push_spark_conds(qb: &mut SqlBuilder, p: &UnifiedSearchParams) -> (r: (
    ArrayCond,
    ArrayCond,
    ArrayCond,
    ArrayCond,
))
    requires
        p.blue_sparks@.len() <= i32::MAX,
        p.pink_sparks@.len() <= i32::MAX,
        p.green_sparks@.len() <= i32::MAX,
        p.white_sparks@.len() <= i32::MAX,
    ensures
        multi_group_shape(r.0, spec_groups(views_of_strings(p.blue_sparks@))),
        multi_group_shape(r.1, spec_groups(views_of_strings(p.pink_sparks@))),
        multi_group_shape(r.2, spec_groups(views_of_strings(p.green_sparks@))),
        multi_group_shape(r.3, spec_groups(views_of_strings(p.white_sparks@))),
        final(qb).sql@ == old(qb).sql@ + spark_conds_sql(
            r.0,
            r.1,
            r.2,
            r.3,
            old(qb).binds@.len() as int,
        ),
        final(qb).binds@ == old(qb).binds@ + spark_conds_binds(r.0, r.1, r.2, r.3),
{
    proof {
        reveal(spark_conds_sql);
        reveal(spark_conds_binds);
    }
    let blue_groups = process_spark_groups(&p.blue_sparks);
    proof {
        lemma_spec_groups_len(views_of_strings(p.blue_sparks@));
        assert(views_of_vecs(blue_groups@) =~~= spec_groups(views_of_strings(p.blue_sparks@)));
    }
    let blue = add_multi_group_spark_conditions(qb, "i.blue_sparks", &blue_groups);
    let pink_groups = process_spark_groups(&p.pink_sparks);
    proof {
        lemma_spec_groups_len(views_of_strings(p.pink_sparks@));
        assert(views_of_vecs(pink_groups@) =~~= spec_groups(views_of_strings(p.pink_sparks@)));
    }
    let pink = add_multi_group_spark_conditions(qb, "i.pink_sparks", &pink_groups);
    let green_groups = process_spark_groups(&p.green_sparks);
    proof {
        lemma_spec_groups_len(views_of_strings(p.green_sparks@));
        assert(views_of_vecs(green_groups@) =~~= spec_groups(views_of_strings(p.green_sparks@)));
    }
    let green = add_multi_group_spark_conditions(qb, "i.green_sparks", &green_groups);
    let white_groups = process_spark_groups(&p.white_sparks);
    proof {
        lemma_spec_groups_len(views_of_strings(p.white_sparks@));
        assert(views_of_vecs(white_groups@) =~~= spec_groups(views_of_strings(p.white_sparks@)));
    }
    let white = add_multi_group_spark_conditions(qb, "i.white_sparks", &white_groups);
    (blue, pink, green, white)
}

/// The three "all stats at nine stars" shortcuts.
#[verifier::opaque]
pub open spec fn nine_all_sql(p: UnifiedSearchParams, n0: int) -> Seq<char> {
    let s = nine_star_sql(p.blue_sparks_9star, "i.blue_sparks"@, n0);
    let n = n0 + nine_star_binds(p.blue_sparks_9star).len();
    let s = s + nine_star_sql(p.pink_sparks_9star, "i.pink_sparks"@, n);
    let n = n + nine_star_binds(p.pink_sparks_9star).len();
    let s = s + nine_star_sql(p.green_sparks_9star, "i.green_sparks"@, n);
    s
}

/// The binds of the three shortcuts.
#[verifier::opaque]
pub open spec fn nine_all_binds(p: UnifiedSearchParams) -> Seq<BindValue> {
    let b = nine_star_binds(p.blue_sparks_9star);
    let b = b + nine_star_binds(p.pink_sparks_9star);
    let b = b + nine_star_binds(p.green_sparks_9star);
    b
}

/// Append the three shortcuts.
#[verifier::rlimit(100)]
fn push_nine_all(qb: &mut SqlBuilder, p: &UnifiedSearchParams)
    ensures
        final(qb).sql@ == old(qb).sql@ + nine_all_sql(*p, old(qb).binds@.len() as int),
        final(qb).binds@ == old(qb).binds@ + nine_all_binds(*p),
{
    proof {
        reveal(nine_all_sql);
        reveal(nine_all_binds);
    }
    push_nine_star(qb, "i.blue_sparks", &p.blue_sparks_9star);
    push_nine_star(qb, "i.pink_sparks", &p.pink_sparks_9star);
    push_nine_star(qb, "i.green_sparks", &p.green_sparks_9star);
}

/// The four main-parent spark condition lists.
#[verifier::opaque]
pub open spec fn mp_all_sql(
    p: UnifiedSearchParams,
    mb: Seq<ScalarClause>,
    mpk: Seq<ScalarClause>,
    mg: Seq<ScalarClause>,
    mw: Seq<ArrayClause>,
    n0: int,
) -> Seq<char> {
    let gb = spec_groups(views_of_strings(p.main_parent_blue_sparks@));
    let gp = spec_groups(views_of_strings(p.main_parent_pink_sparks@));
    let gg = spec_groups(views_of_strings(p.main_parent_green_sparks@));
    let gw = spec_groups(views_of_strings(p.main_parent_white_sparks@));
    let s = mp_list_sql("i.main_blue_factors"@, gb, mb, n0);
    let n = n0 + mp_list_binds(gb, mb).len();
    let s = s + mp_list_sql("i.main_pink_factors"@, gp, mpk, n);
    let n = n + mp_list_binds(gp, mpk).len();
    let s = s + mp_list_sql("i.main_green_factors"@, gg, mg, n);
    let n = n + mp_list_binds(gg, mg).len();
    let s = s + range_list_sql("i.main_white_factors"@, gw, mw, n);
    s
}

/// The binds of the four main-parent lists.
#[verifier::opaque]
pub open spec fn mp_all_binds(
    p: UnifiedSearchParams,
    mb: Seq<ScalarClause>,
    mpk: Seq<ScalarClause>,
    mg: Seq<ScalarClause>,
    mw: Seq<ArrayClause>,
) -> Seq<BindValue> {
    let gb = spec_groups(views_of_strings(p.main_parent_blue_sparks@));
    let gp = spec_groups(views_of_strings(p.main_parent_pink_sparks@));
    let gg = spec_groups(views_of_strings(p.main_parent_green_sparks@));
    let gw = spec_groups(views_of_strings(p.main_parent_white_sparks@));
    let b = mp_list_binds(gb, mb);
    let b = b + mp_list_binds(gp, mpk);
    let b = b + mp_list_binds(gg, mg);
    let b = b + range_list_binds(gw, mw);
    b
}

/// Append the four main-parent condition lists.
#[verifier::rlimit(100)]
fn push_mp_all(qb: &mut SqlBuilder, p: &UnifiedSearchParams) -> (r: (
    Vec<ScalarClause>,
    Vec<ScalarClause>,
    Vec<ScalarClause>,
    Vec<ArrayClause>,
))
    ensures
        r.0@.len() == spec_groups(views_of_strings(p.main_parent_blue_sparks@)).len(),
        forall|i: int|
            0 <= i < r.0@.len() ==> is_main_parent_clause(
                #[trigger] r.0@[i],
                spec_groups(views_of_strings(p.main_parent_blue_sparks@))[i],
            ),
        r.1@.len() == spec_groups(views_of_strings(p.main_parent_pink_sparks@)).len(),
        forall|i: int|
            0 <= i < r.1@.len() ==> is_main_parent_clause(
                #[trigger] r.1@[i],
                spec_groups(views_of_strings(p.main_parent_pink_sparks@))[i],
            ),
        r.2@.len() == spec_groups(views_of_strings(p.main_parent_green_sparks@)).len(),
        forall|i: int|
            0 <= i < r.2@.len() ==> is_main_parent_clause(
                #[trigger] r.2@[i],
                spec_groups(views_of_strings(p.main_parent_green_sparks@))[i],
            ),
        r.3@.len() == spec_groups(views_of_strings(p.main_parent_white_sparks@)).len(),
        forall|i: int|
            0 <= i < r.3@.len() ==> is_single_group_clause(
                #[trigger] r.3@[i],
                spec_groups(views_of_strings(p.main_parent_white_sparks@))[i],
            ),
        final(qb).sql@ == old(qb).sql@ + mp_all_sql(
            *p,
            r.0@,
            r.1@,
            r.2@,
            r.3@,
            old(qb).binds@.len() as int,
        ),
        final(qb).binds@ == old(qb).binds@ + mp_all_binds(*p, r.0@, r.1@, r.2@, r.3@),
{
    proof {
        reveal(mp_all_sql);
        reveal(mp_all_binds);
    }
    let gb = process_spark_groups(&p.main_parent_blue_sparks);
    proof {
        assert(views_of_vecs(gb@) =~~= spec_groups(views_of_strings(p.main_parent_blue_sparks@)));
    }
    let mb = add_main_parent_group_list(qb, "i.main_blue_factors", &gb);
    let gp = process_spark_groups(&p.main_parent_pink_sparks);
    proof {
        assert(views_of_vecs(gp@) =~~= spec_groups(views_of_strings(p.main_parent_pink_sparks@)));
    }
    let mpk = add_main_parent_group_list(qb, "i.main_pink_factors", &gp);
    let gg = process_spark_groups(&p.main_parent_green_sparks);
    proof {
        assert(views_of_vecs(gg@) =~~= spec_groups(views_of_strings(p.main_parent_green_sparks@)));
    }
    let mg = add_main_parent_group_list(qb, "i.main_green_factors", &gg);
    let gw = process_spark_groups(&p.main_parent_white_sparks);
    proof {
        assert(views_of_vecs(gw@) =~~= spec_groups(views_of_strings(p.main_parent_white_sparks@)));
    }
    let mw = add_spark_range_group_list(qb, "i.main_white_factors", &gw);
    (mb, mpk, mg, mw)
}

/// The minimum-count filters on win, white and per-color main factors.
pub open spec fn min_filters_sql(p: UnifiedSearchParams, n0: int) -> Seq<char> {
    let s = opt_i32_sql(" AND i.win_count >= "@, p.min_win_count, ""@, n0);
    let n = n0 + cnt(p.min_win_count);
    let s = s + opt_i32_sql(" AND i.white_count >= "@, p.min_white_count, ""@, n);
    let n = n + cnt(p.min_white_count);
    let s = s + opt_i32_sql(" AND i.main_blue_factors >= "@, p.min_main_blue_factors, ""@, n);
    let n = n + cnt(p.min_main_blue_factors);
    let s = s + opt_i32_sql(" AND i.main_pink_factors >= "@, p.min_main_pink_factors, ""@, n);
    let n = n + cnt(p.min_main_pink_factors);
    let s = s + opt_i32_sql(" AND i.main_green_factors >= "@, p.min_main_green_factors, ""@, n);
    s
}

/// The binds of the minimum-count filters.
pub open spec fn min_filters_binds(p: UnifiedSearchParams) -> Seq<BindValue> {
    let b = opt_i32_binds(p.min_win_count);
    let b = b + opt_i32_binds(p.min_white_count);
    let b = b + opt_i32_binds(p.min_main_blue_factors);
    let b = b + opt_i32_binds(p.min_main_pink_factors);
    let b = b + opt_i32_binds(p.min_main_green_factors);
    b
}

/// Append the minimum-count filters.
#[verifier::rlimit(100)]
fn push_min_filters(qb: &mut SqlBuilder, p: &UnifiedSearchParams)
    ensures
        final(qb).sql@ == old(qb).sql@ + min_filters_sql(*p, old(qb).binds@.len() as int),
        final(qb).binds@ == old(qb).binds@ + min_filters_binds(*p),
{
    push_opt_i32(qb, " AND i.win_count >= ", &p.min_win_count, "");
    push_opt_i32(qb, " AND i.white_count >= ", &p.min_white_count, "");
    push_opt_i32(qb, " AND i.main_blue_factors >= ", &p.min_main_blue_factors, "");
    push_opt_i32(qb, " AND i.main_pink_factors >= ", &p.min_main_pink_factors, "");
    push_opt_i32(qb, " AND i.main_green_factors >= ", &p.min_main_green_factors, "");
}

} // verus!

verus! {

/// The main-white-factor group conditions and the main-white minimum.
pub open spec fn main_white_sql(
    p: UnifiedSearchParams,
    mwf: Seq<ArrayClause>,
    n0: int,
) -> Seq<char> {
    let gw = spec_groups(views_of_strings(p.main_white_factors@));
    let s = range_list_sql("i.main_white_factors"@, gw, mwf, n0);
    let n = n0 + range_list_binds(gw, mwf).len();
    let s = s + opt_i32_sql(" AND i.main_white_count >= "@, p.min_main_white_count, ""@, n);
    s
}

/// The binds of the main-white-factor conditions and minimum.
pub open spec fn main_white_binds(p: UnifiedSearchParams, mwf: Seq<ArrayClause>) -> Seq<
    BindValue,
> {
    let gw = spec_groups(views_of_strings(p.main_white_factors@));
    let b = range_list_binds(gw, mwf);
    let b = b + opt_i32_binds(p.min_main_white_count);
    b
}

/// Append the main-white-factor conditions and minimum.
#[verifier::rlimit(100)]
fn push_main_white(qb: &mut SqlBuilder, p: &UnifiedSearchParams) -> (mwf: Vec<ArrayClause>)
    ensures
        mwf@.len() == spec_groups(views_of_strings(p.main_white_factors@)).len(),
        forall|i: int|
            0 <= i < mwf@.len() ==> is_single_group_clause(
                #[trigger] mwf@[i],
                spec_groups(views_of_strings(p.main_white_factors@))[i],
            ),
        final(qb).sql@ == old(qb).sql@ + main_white_sql(*p, mwf@, old(qb).binds@.len() as int),
        final(qb).binds@ == old(qb).binds@ + main_white_binds(*p, mwf@),
{
    let gw = process_spark_groups(&p.main_white_factors);
    proof {
        assert(views_of_vecs(gw@) =~~= spec_groups(views_of_strings(p.main_white_factors@)));
    }
    let mwf = add_spark_range_group_list(qb, "i.main_white_factors", &gw);
    push_opt_i32(qb, " AND i.main_white_count >= ", &p.min_main_white_count, "");
    mwf
}

/// The "has any nice-to-have spark" GIN filter over the level expansions of
/// the optional factor identifiers.
pub open spec fn gin_sql(ow: Seq<i32>, om: Seq<i32>, n0: int) -> Seq<char> {
    let we = spec_level_expand(ow);
    let me = spec_level_expand(om);
    if we.len() > 0 && me.len() > 0 {
        " AND (i.white_sparks && ARRAY["@ + placeholders_sql(n0, we.len() as int)
            + "]::int[] OR i.main_white_factors && ARRAY["@ + placeholders_sql(
            n0 + we.len() as int,
            me.len() as int,
        ) + "]::int[])"@
    } else if we.len() > 0 {
        " AND i.white_sparks && ARRAY["@ + placeholders_sql(n0, we.len() as int) + "]::int[]"@
    } else if me.len() > 0 {
        " AND i.main_white_factors && ARRAY["@ + placeholders_sql(n0, me.len() as int)
            + "]::int[]"@
    } else {
        Seq::<char>::empty()
    }
}

/// The binds of the GIN filter.
pub open spec fn gin_binds(ow: Seq<i32>, om: Seq<i32>) -> Seq<BindValue> {
    int_binds(spec_level_expand(ow)) + int_binds(spec_level_expand(om))
}

/// Append the GIN filter.
#[verifier::rlimit(100)]
fn push_gin(qb: &mut SqlBuilder, ow: &Vec<i32>, om: &Vec<i32>)
    ensures
        final(qb).sql@ == old(qb).sql@ + gin_sql(ow@, om@, old(qb).binds@.len() as int),
        final(qb).binds@ == old(qb).binds@ + gin_binds(ow@, om@),
{
    let ghost binds0 = qb.binds@;
    let we = expand_factor_levels(ow);
    let me = expand_factor_levels(om);
    if we.len() > 0 && me.len() > 0 {
        qb.push(" AND (i.white_sparks && ARRAY[");
        push_bind_list(qb, &we);
        qb.push("]::int[] OR i.main_white_factors && ARRAY[");
        push_bind_list(qb, &me);
        qb.push("]::int[])");
        proof {
            assert(qb.binds@ =~= binds0 + gin_binds(ow@, om@));
        }
    } else if we.len() > 0 {
        qb.push(" AND i.white_sparks && ARRAY[");
        push_bind_list(qb, &we);
        qb.push("]::int[]");
        proof {
            assert(qb.binds@ =~= binds0 + gin_binds(ow@, om@));
        }
    } else if me.len() > 0 {
        qb.push(" AND i.main_white_factors && ARRAY[");
        push_bind_list(qb, &me);
        qb.push("]::int[]");
        proof {
            assert(qb.binds@ =~= binds0 + gin_binds(ow@, om@));
        }
    } else {
        proof {
            assert(qb.sql@ =~= qb.sql@ + gin_sql(ow@, om@, qb.binds@.len() as int));
            assert(qb.binds@ =~= binds0 + gin_binds(ow@, om@));
        }
    }
}

/// The follower-ceiling filter and the support-card EXISTS hint of the
/// search statement.
pub open spec fn follower_exists_sql(p: UnifiedSearchParams, n0: int) -> Seq<char> {
    let s = opt_i32_sql(
        " AND (t.follower_num IS NULL OR t.follower_num <= "@,
        p.max_follower_num,
        ")"@,
        n0,
    );
    let n = n0 + cnt(p.max_follower_num);
    let s = if p.support_card_id is Some {
        let s = s
            + " AND EXISTS (SELECT 1 FROM support_card sc_exists WHERE sc_exists.account_id = t.account_id AND sc_exists.support_card_id = "@
            + placeholder(n + 1);
        let s = s + opt_i32_sql(" AND sc_exists.limit_break_count >= "@, p.min_limit_break, ""@, n + 1);
        s + ")"@
    } else {
        s
    };
    s
}

/// The binds of the follower filter and EXISTS hint.
pub open spec fn follower_exists_binds(p: UnifiedSearchParams) -> Seq<BindValue> {
    let b = opt_i32_binds(p.max_follower_num);
    let b = if p.support_card_id is Some {
        b + seq![BindValue::Int(p.support_card_id->0)] + opt_i32_binds(p.min_limit_break)
    } else {
        b
    };
    b
}

/// Append the follower filter and EXISTS hint.
#[verifier::rlimit(100)]
fn push_follower_exists(qb: &mut SqlBuilder, p: &UnifiedSearchParams)
    ensures
        final(qb).sql@ == old(qb).sql@ + follower_exists_sql(*p, old(qb).binds@.len() as int),
        final(qb).binds@ == old(qb).binds@ + follower_exists_binds(*p),
{
    push_opt_i32(
        qb,
        " AND (t.follower_num IS NULL OR t.follower_num <= ",
        &p.max_follower_num,
        ")",
    );
    match p.support_card_id {
        Some(v) => {
            qb.push(
                " AND EXISTS (SELECT 1 FROM support_card sc_exists WHERE sc_exists.account_id = t.account_id AND sc_exists.support_card_id = ",
            );
            let ghost pre = qb.binds@;
            qb.push_bind_i32(v);
            proof {
                assert(qb.binds@ =~= pre + seq![BindValue::Int(v)]);
            }
            push_opt_i32(qb, " AND sc_exists.limit_break_count >= ", &p.min_limit_break, "");
            qb.push(")");
        },
        None => {},
    }
}

/// The ordering and page window of the search statement.
pub open spec fn order_tail_sql(p: UnifiedSearchParams, has_os: bool, n0: int) -> Seq<char> {
    let aff = spec_affinity_expr(spec_affinity_player(p));
    let s = spec_order_clause(
        match p.sort_by {
            Some(sb) => Some(sb@),
            None => None,
        },
        has_os,
        aff,
    );
    s + " LIMIT "@ + placeholder(n0 + 1) + " OFFSET "@ + placeholder(n0 + 2)
}

/// Append the ordering and page window.
#[verifier::rlimit(100)]
fn push_order_tail(qb: &mut SqlBuilder, p: &UnifiedSearchParams, has_os: bool, limit: i64, offset: i64)
    ensures
        final(qb).sql@ == old(qb).sql@ + order_tail_sql(*p, has_os, old(qb).binds@.len() as int),
        final(qb).binds@ == old(qb).binds@ + seq![
            BindValue::BigInt(limit),
            BindValue::BigInt(offset),
        ],
{
    let ap = affinity_player(p);
    let aff = get_affinity_expression(ap);
    let oc = order_clause(&p.sort_by, has_os, aff.as_str());
    qb.push(oc.as_str());
    let ghost pre = qb.binds@;
    qb.push(" LIMIT ");
    qb.push_bind_i64(limit);
    qb.push(" OFFSET ");
    qb.push_bind_i64(offset);
    proof {
        assert(qb.binds@ =~= pre + seq![BindValue::BigInt(limit), BindValue::BigInt(offset)]);
    }
}

} // verus!

verus! {

/// Whether "nice to have" scoring is in play.
pub open spec fn spec_has_os(ow: Seq<i32>, om: Seq<i32>) -> bool {
    ow.len() > 0 || om.len() > 0
}

/// The full text of the paged search statement.
pub open spec fn spec_search_sql(
    p: UnifiedSearchParams,
    c: QueryConds,
    ow: Seq<i32>,
    om: Seq<i32>,
) -> Seq<char> {
    let s = select_head_sql(p, ow, om);
    let n = ow.len() + om.len() as int;
    let s = s + where_filters_sql(p, n);
    let n = n + sc_filters_binds(p).len() + tid_count(p) + tname_count(p) + id_filters_binds(
        p,
    ).len();
    let s = s + spark_conds_sql(c.blue, c.pink, c.green, c.white, n);
    let n = n + spark_conds_binds(c.blue, c.pink, c.green, c.white).len();
    let s = s + nine_all_sql(p, n);
    let n = n + nine_all_binds(p).len();
    let s = s + mp_all_sql(p, c.mp_blue@, c.mp_pink@, c.mp_green@, c.mp_white@, n);
    let n = n + mp_all_binds(p, c.mp_blue@, c.mp_pink@, c.mp_green@, c.mp_white@).len();
    let s = s + search_end_sql(p, c.main_white@, ow, om, n);
    s
}

/// The full bind list of the paged search statement.
pub open spec fn spec_search_binds(
    p: UnifiedSearchParams,
    c: QueryConds,
    ow: Seq<i32>,
    om: Seq<i32>,
    tid: Seq<BindValue>,
    tname: Seq<BindValue>,
    limit: i64,
    offset: i64,
) -> Seq<BindValue> {
    let b = int_binds(ow) + int_binds(om);
    let b = b + where_filters_binds(p, tid, tname);
    let b = b + spark_conds_binds(c.blue, c.pink, c.green, c.white);
    let b = b + nine_all_binds(p);
    let b = b + mp_all_binds(p, c.mp_blue@, c.mp_pink@, c.mp_green@, c.mp_white@);
    let b = b + search_end_binds(p, c.main_white@, ow, om, limit, offset);
    b
}

} // verus!

verus! {

/// The filter block shared verbatim by nothing else: support-card, trainer
/// and identity filters in search order.
#[verifier::opaque]
pub open spec fn where_filters_sql(p: UnifiedSearchParams, n0: int) -> Seq<char> {
    let s = sc_filters_sql(p, n0);
    let n = n0 + sc_filters_binds(p).len();
    let s = s + tid_filter_sql(p, n);
    let n = n + tid_count(p);
    let s = s + tname_filter_sql(p, n);
    let n = n + tname_count(p);
    let s = s + id_filters_sql(p, n);
    s
}

/// The binds of the filter block.
#[verifier::opaque]
pub open spec fn where_filters_binds(
    p: UnifiedSearchParams,
    tid: Seq<BindValue>,
    tname: Seq<BindValue>,
) -> Seq<BindValue> {
    let b = sc_filters_binds(p);
    let b = b + tid;
    let b = b + tname;
    let b = b + id_filters_binds(p);
    b
}

/// Append the filter block.
#[verifier::rlimit(100)]
fn push_where_filters(qb: &mut SqlBuilder, p: &UnifiedSearchParams) -> (tids: (
    Ghost<Seq<BindValue>>,
    Ghost<Seq<BindValue>>,
))
    ensures
        final(qb).sql@ == old(qb).sql@ + where_filters_sql(*p, old(qb).binds@.len() as int),
        final(qb).binds@ == old(qb).binds@ + where_filters_binds(*p, tids.0@, tids.1@),
        final(qb).binds@.len() == old(qb).binds@.len() + sc_filters_binds(*p).len() + tid_count(*p)
            + tname_count(*p) + id_filters_binds(*p).len(),
        opt_text_binds_match(
            tids.0@,
            match p.trainer_id {
                Some(s) => Some(s@),
                None => None,
            },
        ),
        opt_text_binds_match(tids.1@, spec_name_pattern(*p)),
{
    proof {
        reveal(where_filters_sql);
        reveal(where_filters_binds);
    }
    push_sc_filters(qb, p);
    let tid = push_trainer_id(qb, p);
    let tname = push_trainer_name(qb, p);
    push_id_filters(qb, p);
    (tid, tname)
}

/// The closing block of the search statement: minimum counts, main-white
/// conditions, GIN filter, follower ceiling, EXISTS hint, ordering and
/// page window.
#[verifier::opaque]
pub open spec fn search_end_sql(
    p: UnifiedSearchParams,
    mwf: Seq<ArrayClause>,
    ow: Seq<i32>,
    om: Seq<i32>,
    n0: int,
) -> Seq<char> {
    let s = min_filters_sql(p, n0);
    let n = n0 + min_filters_binds(p).len();
    let s = s + main_white_sql(p, mwf, n);
    let n = n + main_white_binds(p, mwf).len();
    let s = s + gin_sql(ow, om, n);
    let n = n + gin_binds(ow, om).len();
    let s = s + follower_exists_sql(p, n);
    let n = n + follower_exists_binds(p).len();
    let s = s + order_tail_sql(p, spec_has_os(ow, om), n);
    s
}

/// The binds of the closing block.
#[verifier::opaque]
pub open spec fn search_end_binds(
    p: UnifiedSearchParams,
    mwf: Seq<ArrayClause>,
    ow: Seq<i32>,
    om: Seq<i32>,
    limit: i64,
    offset: i64,
) -> Seq<BindValue> {
    let b = min_filters_binds(p);
    let b = b + main_white_binds(p, mwf);
    let b = b + gin_binds(ow, om);
    let b = b + follower_exists_binds(p);
    let b = b + seq![BindValue::BigInt(limit), BindValue::BigInt(offset)];
    b
}

/// Append the closing block.
#[verifier::rlimit(100)]
fn push_search_end(
    qb: &mut SqlBuilder,
    p: &UnifiedSearchParams,
    ow: &Vec<i32>,
    om: &Vec<i32>,
    limit: i64,
    offset: i64,
) -> (mwf: Vec<ArrayClause>)
    ensures
        mwf@.len() == spec_groups(views_of_strings(p.main_white_factors@)).len(),
        forall|i: int|
            0 <= i < mwf@.len() ==> is_single_group_clause(
                #[trigger] mwf@[i],
                spec_groups(views_of_strings(p.main_white_factors@))[i],
            ),
        final(qb).sql@ == old(qb).sql@ + search_end_sql(
            *p,
            mwf@,
            ow@,
            om@,
            old(qb).binds@.len() as int,
        ),
        final(qb).binds@ == old(qb).binds@ + search_end_binds(*p, mwf@, ow@, om@, limit, offset),
{
    proof {
        reveal(search_end_sql);
        reveal(search_end_binds);
    }
    push_min_filters(qb, p);
    let mwf = push_main_white(qb, p);
    push_gin(qb, ow, om);
    push_follower_exists(qb, p);
    let has_os = ow.len() > 0 || om.len() > 0;
    push_order_tail(qb, p, has_os, limit, offset);
    mwf
}

/// Build the paged search statement of a request: the SELECT with affinity
/// and optional "nice to have" scoring, every filter predicate over bound
/// parameters, the resolved ordering and the page window.  Returns the
/// statement, the predicate values it rendered, and the flattened optional
/// factor identifiers.
#[verifier::rlimit(100)]
pub fn build_search_query(p: &UnifiedSearchParams, limit: i64, offset: i64) -> (r: (
    SqlBuilder,
    QueryConds,
    Vec<i32>,
    Vec<i32>,
    Ghost<Seq<BindValue>>,
    Ghost<Seq<BindValue>>,
))
    requires
        p.blue_sparks@.len() <= i32::MAX,
        p.pink_sparks@.len() <= i32::MAX,
        p.green_sparks@.len() <= i32::MAX,
        p.white_sparks@.len() <= i32::MAX,
    ensures
        conds_ok(r.1, *p),
        r.2@ == spec_flat_ids(views_of_strings(p.optional_white_sparks@)),
        r.3@ == spec_flat_ids(views_of_strings(p.optional_main_white_factors@)),
        r.0.sql@ == spec_search_sql(*p, r.1, r.2@, r.3@),
        r.0.binds@ == spec_search_binds(*p, r.1, r.2@, r.3@, r.4@, r.5@, limit, offset),
        opt_text_binds_match(
            r.4@,
            match p.trainer_id {
                Some(s) => Some(s@),
                None => None,
            },
        ),
        opt_text_binds_match(r.5@, spec_name_pattern(*p)),
{
    let mut qb = SqlBuilder::new();
    let ow = flatten_optional_ids(&p.optional_white_sparks);
    let om = flatten_optional_ids(&p.optional_main_white_factors);
    push_select_head(&mut qb, p, &ow, &om);
    let tids = push_where_filters(&mut qb, p);
    let (blue, pink, green, white) = push_spark_conds(&mut qb, p);
    push_nine_all(&mut qb, p);
    let (mp_blue, mp_pink, mp_green, mp_white) = push_mp_all(&mut qb, p);
    let main_white = push_search_end(&mut qb, p, &ow, &om, limit, offset);
    let conds = QueryConds {
        blue,
        pink,
        green,
        white,
        mp_blue,
        mp_pink,
        mp_green,
        mp_white,
        main_white,
    };
    proof {
        assert(qb.sql@ == spec_search_sql(*p, conds, ow@, om@));
        assert(qb.binds@ == spec_search_binds(
            *p,
            conds,
            ow@,
            om@,
            tids.0@,
            tids.1@,
            limit,
            offset,
        ));
    }
    (qb, conds, ow, om, tids.0, tids.1)
}

} // verus!

verus! {

/// The support-card EXISTS filter of the count statement, present when any
/// support-card field is filtered.
pub open spec fn count_exists_sql(p: UnifiedSearchParams, n0: int) -> Seq<char> {
    if p.support_card_id is Some || p.min_limit_break is Some || p.max_limit_break is Some
        || p.min_experience is Some {
        let s =
            " AND EXISTS (SELECT 1 FROM support_card sc_ex WHERE sc_ex.account_id = i.account_id"@;
        let s = s + opt_i32_sql(" AND sc_ex.support_card_id = "@, p.support_card_id, ""@, n0);
        let n = n0 + cnt(p.support_card_id);
        let s = s + opt_i32_sql(" AND sc_ex.limit_break_count >= "@, p.min_limit_break, ""@, n);
        let n = n + cnt(p.min_limit_break);
        let s = s + opt_i32_sql(" AND sc_ex.limit_break_count <= "@, p.max_limit_break, ""@, n);
        let n = n + cnt(p.max_limit_break);
        let s = s + opt_i32_sql(" AND sc_ex.experience >= "@, p.min_experience, ""@, n);
        s + ")"@
    } else {
        Seq::<char>::empty()
    }
}

/// The binds of the count statement's EXISTS filter.
pub open spec fn count_exists_binds(p: UnifiedSearchParams) -> Seq<BindValue> {
    if p.support_card_id is Some || p.min_limit_break is Some || p.max_limit_break is Some
        || p.min_experience is Some {
        let b = opt_i32_binds(p.support_card_id);
        let b = b + opt_i32_binds(p.min_limit_break);
        let b = b + opt_i32_binds(p.max_limit_break);
        let b = b + opt_i32_binds(p.min_experience);
        b
    } else {
        Seq::<BindValue>::empty()
    }
}

/// Append the count statement's EXISTS filter.
#[verifier::rlimit(100)]
fn push_count_exists(qb: &mut SqlBuilder, p: &UnifiedSearchParams)
    ensures
        final(qb).sql@ == old(qb).sql@ + count_exists_sql(*p, old(qb).binds@.len() as int),
        final(qb).binds@ == old(qb).binds@ + count_exists_binds(*p),
{
    let any = p.support_card_id.is_some() || p.min_limit_break.is_some()
        || p.max_limit_break.is_some() || p.min_experience.is_some();
    if any {
        qb.push(
            " AND EXISTS (SELECT 1 FROM support_card sc_ex WHERE sc_ex.account_id = i.account_id",
        );
        push_opt_i32(qb, " AND sc_ex.support_card_id = ", &p.support_card_id, "");
        push_opt_i32(qb, " AND sc_ex.limit_break_count >= ", &p.min_limit_break, "");
        push_opt_i32(qb, " AND sc_ex.limit_break_count <= ", &p.max_limit_break, "");
        push_opt_i32(qb, " AND sc_ex.experience >= ", &p.min_experience, "");
        qb.push(")");
    } else {
        proof {
            assert(final(qb).sql@ =~= old(qb).sql@ + count_exists_sql(
                *p,
                old(qb).binds@.len() as int,
            ));
            assert(final(qb).binds@ =~= old(qb).binds@ + count_exists_binds(*p));
        }
    }
}

/// The first half of the count statement's filter front: exclusion,
/// trainer identifier and the EXISTS filter.
#[verifier::opaque]
pub open spec fn count_front_a_sql(p: UnifiedSearchParams, n0: int) -> Seq<char> {
    let s = opt_i32_sql(" AND i.main_chara_id != "@, spec_excl(p), ""@, n0);
    let n = n0 + cnt(spec_excl(p));
    let s = s + tid_filter_sql(p, n);
    let n = n + tid_count(p);
    let s = s + count_exists_sql(p, n);
    s
}

/// The binds of the front's first half.
#[verifier::opaque]
pub open spec fn count_front_a_binds(p: UnifiedSearchParams, tid: Seq<BindValue>) -> Seq<
    BindValue,
> {
    let b = opt_i32_binds(spec_excl(p));
    let b = b + tid;
    let b = b + count_exists_binds(p);
    b
}

/// Append the front's first half.
#[verifier::rlimit(100)]
fn push_count_front_a(qb: &mut SqlBuilder, p: &UnifiedSearchParams) -> (tid: Ghost<
    Seq<BindValue>,
>)
    ensures
        final(qb).sql@ == old(qb).sql@ + count_front_a_sql(*p, old(qb).binds@.len() as int),
        final(qb).binds@ == old(qb).binds@ + count_front_a_binds(*p, tid@),
        final(qb).binds@.len() == old(qb).binds@.len() + cnt(spec_excl(*p)) + tid_count(*p)
            + count_exists_binds(*p).len(),
        tid@.len() == tid_count(*p),
        opt_text_binds_match(
            tid@,
            match p.trainer_id {
                Some(s) => Some(s@),
                None => None,
            },
        ),
{
    proof {
        reveal(count_front_a_sql);
        reveal(count_front_a_binds);
    }
    let excl: Option<i32> = match p.desired_main_chara_id {
        Some(_) => None,
        None => p.player_chara_id,
    };
    push_opt_i32(qb, " AND i.main_chara_id != ", &excl, "");
    let tid = push_trainer_id(qb, p);
    push_count_exists(qb, p);
    tid
}

/// The second half of the count statement's filter front: trainer name and
/// identity filters.
#[verifier::opaque]
pub open spec fn count_front_b_sql(p: UnifiedSearchParams, n0: int) -> Seq<char> {
    let s = tname_filter_sql(p, n0);
    let n = n0 + tname_count(p);
    let s = s + id_filters_sql(p, n);
    s
}

/// The binds of the front's second half.
#[verifier::opaque]
pub open spec fn count_front_b_binds(p: UnifiedSearchParams, tname: Seq<BindValue>) -> Seq<
    BindValue,
> {
    let b = tname;
    let b = b + id_filters_binds(p);
    b
}

/// Append the front's second half.
#[verifier::rlimit(100)]
fn push_count_front_b(qb: &mut SqlBuilder, p: &UnifiedSearchParams) -> (tname: Ghost<
    Seq<BindValue>,
>)
    ensures
        final(qb).sql@ == old(qb).sql@ + count_front_b_sql(*p, old(qb).binds@.len() as int),
        final(qb).binds@ == old(qb).binds@ + count_front_b_binds(*p, tname@),
        tname@.len() == tname_count(*p),
        opt_text_binds_match(tname@, spec_name_pattern(*p)),
{
    proof {
        reveal(count_front_b_sql);
        reveal(count_front_b_binds);
    }
    let tname = push_trainer_name(qb, p);
    push_id_filters(qb, p);
    tname
}

/// The filter front of the count statement: exclusion, trainer identifier,
/// the EXISTS filter, trainer name, identity filters.
#[verifier::opaque]
pub open spec fn count_front_sql(p: UnifiedSearchParams, n0: int) -> Seq<char> {
    let s = count_front_a_sql(p, n0);
    let n = n0 + cnt(spec_excl(p)) + tid_count(p) + count_exists_binds(p).len();
    let s = s + count_front_b_sql(p, n);
    s
}

/// The binds of the count statement's filter front.
#[verifier::opaque]
pub open spec fn count_front_binds(
    p: UnifiedSearchParams,
    tid: Seq<BindValue>,
    tname: Seq<BindValue>,
) -> Seq<BindValue> {
    let b = count_front_a_binds(p, tid);
    let b = b + count_front_b_binds(p, tname);
    b
}

/// The length of the count front's bind list, from its parts.
proof fn lemma_count_front_len(p: UnifiedSearchParams, tid: Seq<BindValue>, tname: Seq<BindValue>)
    ensures
        count_front_binds(p, tid, tname).len() == cnt(spec_excl(p)) + tid.len()
            + count_exists_binds(p).len() + tname.len() + id_filters_binds(p).len(),
{
    reveal(count_front_binds);
    reveal(count_front_a_binds);
    reveal(count_front_b_binds);
}

/// Append the count statement's filter front.
#[verifier::rlimit(100)]
fn push_count_front(qb: &mut SqlBuilder, p: &UnifiedSearchParams) -> (tids: (
    Ghost<Seq<BindValue>>,
    Ghost<Seq<BindValue>>,
))
    ensures
        final(qb).sql@ == old(qb).sql@ + count_front_sql(*p, old(qb).binds@.len() as int),
        final(qb).binds@ == old(qb).binds@ + count_front_binds(*p, tids.0@, tids.1@),
        tids.0@.len() == tid_count(*p),
        tids.1@.len() == tname_count(*p),
        opt_text_binds_match(
            tids.0@,
            match p.trainer_id {
                Some(s) => Some(s@),
                None => None,
            },
        ),
        opt_text_binds_match(tids.1@, spec_name_pattern(*p)),
{
    proof {
        reveal(count_front_sql);
        reveal(count_front_binds);
    }
    let tid = push_count_front_a(qb, p);
    let tname = push_count_front_b(qb, p);
    (tid, tname)
}

/// The closing filters of the count statement.
#[verifier::opaque]
pub open spec fn count_end_sql(
    p: UnifiedSearchParams,
    mwf: Seq<ArrayClause>,
    n0: int,
) -> Seq<char> {
    let s = min_filters_sql(p, n0);
    let n = n0 + min_filters_binds(p).len();
    let s = s + main_white_sql(p, mwf, n);
    let n = n + main_white_binds(p, mwf).len();
    let s = s + opt_i32_sql(
        " AND (t.follower_num IS NULL OR t.follower_num <= "@,
        p.max_follower_num,
        ")"@,
        n,
    );
    s + " LIMIT 10001) AS sub"@
}

/// The binds of the count statement's closing filters.
#[verifier::opaque]
pub open spec fn count_end_binds(p: UnifiedSearchParams, mwf: Seq<ArrayClause>) -> Seq<BindValue> {
    let b = min_filters_binds(p);
    let b = b + main_white_binds(p, mwf);
    let b = b + opt_i32_binds(p.max_follower_num);
    b
}

/// Append the count statement's closing filters.
#[verifier::rlimit(100)]
fn push_count_end(qb: &mut SqlBuilder, p: &UnifiedSearchParams) -> (mwf: Vec<ArrayClause>)
    ensures
        mwf@.len() == spec_groups(views_of_strings(p.main_white_factors@)).len(),
        forall|i: int|
            0 <= i < mwf@.len() ==> is_single_group_clause(
                #[trigger] mwf@[i],
                spec_groups(views_of_strings(p.main_white_factors@))[i],
            ),
        final(qb).sql@ == old(qb).sql@ + count_end_sql(*p, mwf@, old(qb).binds@.len() as int),
        final(qb).binds@ == old(qb).binds@ + count_end_binds(*p, mwf@),
{
    proof {
        reveal(count_end_sql);
        reveal(count_end_binds);
    }
    push_min_filters(qb, p);
    let mwf = push_main_white(qb, p);
    push_opt_i32(
        qb,
        " AND (t.follower_num IS NULL OR t.follower_num <= ",
        &p.max_follower_num,
        ")",
    );
    qb.push(" LIMIT 10001) AS sub");
    mwf
}

/// The full text of the capped count statement.
pub open spec fn spec_count_sql(p: UnifiedSearchParams, c: QueryConds) -> Seq<char> {
    let s =
        "SELECT COUNT(*) FROM (SELECT 1 FROM inheritance i INNER JOIN trainer t ON i.account_id = t.account_id WHERE (t.follower_num IS NULL OR t.follower_num < 1000)"@;
    let n: int = 0;
    let s = s + count_front_sql(p, n);
    let n = n + cnt(spec_excl(p)) + tid_count(p) + count_exists_binds(p).len() + tname_count(p)
        + id_filters_binds(p).len();
    let s = s + spark_conds_sql(c.blue, c.pink, c.green, c.white, n);
    let n = n + spark_conds_binds(c.blue, c.pink, c.green, c.white).len();
    let s = s + nine_all_sql(p, n);
    let n = n + nine_all_binds(p).len();
    let s = s + mp_all_sql(p, c.mp_blue@, c.mp_pink@, c.mp_green@, c.mp_white@, n);
    let n = n + mp_all_binds(p, c.mp_blue@, c.mp_pink@, c.mp_green@, c.mp_white@).len();
    let s = s + count_end_sql(p, c.main_white@, n);
    s
}

/// The full bind list of the capped count statement.
pub open spec fn spec_count_binds(
    p: UnifiedSearchParams,
    c: QueryConds,
    tid: Seq<BindValue>,
    tname: Seq<BindValue>,
) -> Seq<BindValue> {
    let b = count_front_binds(p, tid, tname);
    let b = b + spark_conds_binds(c.blue, c.pink, c.green, c.white);
    let b = b + nine_all_binds(p);
    let b = b + mp_all_binds(p, c.mp_blue@, c.mp_pink@, c.mp_green@, c.mp_white@);
    let b = b + count_end_binds(p, c.main_white@);
    b
}

/// Build the capped count statement of a request: the same predicate
/// construction as the search statement over a `COUNT(*)` of a sub-select
/// limited to 10001 rows, so the count is exact up to 10000.
#[verifier::rlimit(100)]
pub fn build_count_query(p: &UnifiedSearchParams) -> (r: (
    SqlBuilder,
    QueryConds,
    Ghost<Seq<BindValue>>,
    Ghost<Seq<BindValue>>,
))
    requires
        p.blue_sparks@.len() <= i32::MAX,
        p.pink_sparks@.len() <= i32::MAX,
        p.green_sparks@.len() <= i32::MAX,
        p.white_sparks@.len() <= i32::MAX,
    ensures
        conds_ok(r.1, *p),
        r.0.sql@ == spec_count_sql(*p, r.1),
        r.0.binds@ == spec_count_binds(*p, r.1, r.2@, r.3@),
        opt_text_binds_match(
            r.2@,
            match p.trainer_id {
                Some(s) => Some(s@),
                None => None,
            },
        ),
        opt_text_binds_match(r.3@, spec_name_pattern(*p)),
{
    let mut qb = SqlBuilder::new();
    qb.push(
        "SELECT COUNT(*) FROM (SELECT 1 FROM inheritance i INNER JOIN trainer t ON i.account_id = t.account_id WHERE (t.follower_num IS NULL OR t.follower_num < 1000)",
    );
    proof {
        assert(qb.sql@
            =~= "SELECT COUNT(*) FROM (SELECT 1 FROM inheritance i INNER JOIN trainer t ON i.account_id = t.account_id WHERE (t.follower_num IS NULL OR t.follower_num < 1000)"@);
        assert(qb.binds@ =~= Seq::<BindValue>::empty());
    }
    let tids = push_count_front(&mut qb, p);
    let (blue, pink, green, white) = push_spark_conds(&mut qb, p);
    push_nine_all(&mut qb, p);
    let (mp_blue, mp_pink, mp_green, mp_white) = push_mp_all(&mut qb, p);
    let main_white = push_count_end(&mut qb, p);
    let conds = QueryConds {
        blue,
        pink,
        green,
        white,
        mp_blue,
        mp_pink,
        mp_green,
        mp_white,
        main_white,
    };
    proof {
        lemma_count_front_len(*p, tids.0@, tids.1@);
        assert(qb.sql@ == spec_count_sql(*p, conds));
        assert(qb.binds@ == spec_count_binds(*p, conds, tids.0@, tids.1@));
    }
    (qb, conds, tids.0, tids.1)
}

} // verus!
