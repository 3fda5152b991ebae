//! The structured filter request of the unified search endpoint: parsed
//! once from the query string, then treated as an immutable value.  Field
//! parsing is lenient — a value that does not parse is treated as absent —
//! and the "blank query" classification decides cache policy and the
//! count-query strategy.
use vstd::prelude::*;

verus! {

use crate::text::{
    parse_bool, parse_i32, parse_i64, spec_parse_bool, spec_parse_i32, spec_parse_i64, str_eq,
};

/// The parameters of one search request, each at its parsed value or its
/// default.  Spark group fields keep their raw comma-separated strings: one
/// string per group.
#[derive(Debug)]
pub struct UnifiedSearchParams {
    pub page: Option<i64>,
    pub limit: Option<i64>,
    pub search_type: Option<String>,
    pub main_parent_id: Option<i32>,
    pub parent_left_id: Option<i32>,
    pub parent_right_id: Option<i32>,
    pub parent_rank: Option<i32>,
    pub parent_rarity: Option<i32>,
    pub blue_sparks: Vec<String>,
    pub pink_sparks: Vec<String>,
    pub green_sparks: Vec<String>,
    pub white_sparks: Vec<String>,
    pub blue_sparks_9star: Option<bool>,
    pub pink_sparks_9star: Option<bool>,
    pub green_sparks_9star: Option<bool>,
    pub main_parent_blue_sparks: Vec<String>,
    pub main_parent_pink_sparks: Vec<String>,
    pub main_parent_green_sparks: Vec<String>,
    pub main_parent_white_sparks: Vec<String>,
    pub min_win_count: Option<i32>,
    pub min_white_count: Option<i32>,
    pub min_main_blue_factors: Option<i32>,
    pub min_main_pink_factors: Option<i32>,
    pub min_main_green_factors: Option<i32>,
    pub main_white_factors: Vec<String>,
    pub min_main_white_count: Option<i32>,
    pub optional_white_sparks: Vec<String>,
    pub optional_main_white_factors: Vec<String>,
    pub support_card_id: Option<i32>,
    pub min_limit_break: Option<i32>,
    pub max_limit_break: Option<i32>,
    pub min_experience: Option<i32>,
    pub trainer_id: Option<String>,
    pub trainer_name: Option<String>,
    pub max_follower_num: Option<i32>,
    pub sort_by: Option<String>,
    pub sort_order: Option<String>,
    pub player_chara_id: Option<i32>,
    pub player_chara_id_2: Option<i32>,
    pub desired_main_chara_id: Option<i32>,
}

/// The decoded key/value pairs of a query string, in order of appearance.
/// The decoding (splitting on `&` and `=`, percent- and plus-decoding) is
/// done by an outside URL library; this name stands for its result, which
/// depends on the query string alone.
pub uninterp spec fn query_pairs(s: Seq<char>) -> Seq<(Seq<char>, Seq<char>)>;

/// Relies on url::form_urlencoded::parse: splits `query` into decoded
/// key/value pairs, in order.
#[verifier::external_body]
fn parse_query_pairs(query: &str) -> (r: Vec<(String, String)>)
    ensures
        r@.len() == query_pairs(query@).len(),
        forall|i: int|
            0 <= i < r@.len() ==> #[trigger] r@[i].0@ == query_pairs(query@)[i].0 && r@[i].1@
                == query_pairs(query@)[i].1,
{
    url::form_urlencoded::parse(query.as_bytes()).into_owned().collect()
}

/// The views of a list of key/value string pairs.
pub open spec fn pair_views(ps: Seq<(String, String)>) -> Seq<(Seq<char>, Seq<char>)> {
    ps.map_values(|p: (String, String)| (p.0@, p.1@))
}

/// The last value listed under `key`, if any.
pub open spec fn last_value(ps: Seq<(Seq<char>, Seq<char>)>, key: Seq<char>) -> Option<Seq<char>>
    decreases ps.len(),
{
    if ps.len() == 0 {
        None
    } else if ps.last().0 == key {
        Some(ps.last().1)
    } else {
        last_value(ps.drop_last(), key)
    }
}

/// All values listed under `key`, in order.
pub open spec fn all_values(ps: Seq<(Seq<char>, Seq<char>)>, key: Seq<char>) -> Seq<Seq<char>>
    decreases ps.len(),
{
    if ps.len() == 0 {
        Seq::<Seq<char>>::empty()
    } else if ps.last().0 == key {
        all_values(ps.drop_last(), key).push(ps.last().1)
    } else {
        all_values(ps.drop_last(), key)
    }
}

/// The `i32` value of a field: its last occurrence, strictly parsed;
/// absent or unparseable input counts as absent.
pub open spec fn spec_i32_field(ps: Seq<(Seq<char>, Seq<char>)>, key: Seq<char>) -> Option<i32> {
    match last_value(ps, key) {
        Some(v) => spec_parse_i32(v),
        None => None,
    }
}

/// The `i64` value of a field, as `spec_i32_field`.
pub open spec fn spec_i64_field(ps: Seq<(Seq<char>, Seq<char>)>, key: Seq<char>) -> Option<i64> {
    match last_value(ps, key) {
        Some(v) => spec_parse_i64(v),
        None => None,
    }
}

/// The boolean value of a field, as `spec_i32_field`.
pub open spec fn spec_bool_field(ps: Seq<(Seq<char>, Seq<char>)>, key: Seq<char>) -> Option<bool> {
    match last_value(ps, key) {
        Some(v) => spec_parse_bool(v),
        None => None,
    }
}

/// The last string value under `key`, if any.
fn last_value_for(pairs: &Vec<(String, String)>, key: &str) -> (r: Option<String>)
    ensures
        match r {
            Some(v) => last_value(pair_views(pairs@), key@) == Some(v@),
            None => last_value(pair_views(pairs@), key@) is None,
        },
{
    let ghost ps = pair_views(pairs@);
    let mut found: Option<String> = None;
    let mut i: usize = 0;
    while i < pairs.len()
        invariant
            i <= pairs@.len(),
            ps == pair_views(pairs@),
            ps.len() == pairs@.len(),
            forall|j: int| 0 <= j < ps.len() ==> #[trigger] ps[j] == (pairs@[j].0@, pairs@[j].1@),
            match found {
                Some(v) => last_value(ps.take(i as int), key@) == Some(v@),
                None => last_value(ps.take(i as int), key@) is None,
            },
        decreases pairs@.len() - i,
    {
        proof {
            assert(ps.take(i as int + 1).drop_last() =~= ps.take(i as int));
            assert(ps.take(i as int + 1).last() == ps[i as int]);
        }
        if str_eq(pairs[i].0.as_str(), key) {
            found = Some(pairs[i].1.clone());
        }
        i += 1;
    }
    proof {
        assert(ps.take(ps.len() as int) =~= ps);
    }
    found
}

/// All string values under `key`, in order.
fn all_values_for(pairs: &Vec<(String, String)>, key: &str) -> (r: Vec<String>)
    ensures
        r@.len() == all_values(pair_views(pairs@), key@).len(),
        forall|j: int|
            0 <= j < r@.len() ==> #[trigger] r@[j]@ == all_values(pair_views(pairs@), key@)[j],
{
    let ghost ps = pair_views(pairs@);
    let mut out: Vec<String> = Vec::new();
    let mut i: usize = 0;
    while i < pairs.len()
        invariant
            i <= pairs@.len(),
            ps == pair_views(pairs@),
            ps.len() == pairs@.len(),
            forall|j: int| 0 <= j < ps.len() ==> #[trigger] ps[j] == (pairs@[j].0@, pairs@[j].1@),
            out@.len() == all_values(ps.take(i as int), key@).len(),
            forall|j: int|
                0 <= j < out@.len() ==> #[trigger] out@[j]@ == all_values(ps.take(i as int), key@)[j],
        decreases pairs@.len() - i,
    {
        proof {
            assert(ps.take(i as int + 1).drop_last() =~= ps.take(i as int));
            assert(ps.take(i as int + 1).last() == ps[i as int]);
        }
        if str_eq(pairs[i].0.as_str(), key) {
            out.push(pairs[i].1.clone());
        }
        i += 1;
    }
    proof {
        assert(ps.take(ps.len() as int) =~= ps);
    }
    out
}

/// The `i32` field under `key`.
fn i32_field(pairs: &Vec<(String, String)>, key: &str) -> (r: Option<i32>)
    ensures
        r == spec_i32_field(pair_views(pairs@), key@),
{
    match last_value_for(pairs, key) {
        Some(v) => parse_i32(v.as_str()),
        None => None,
    }
}

/// The `i64` field under `key`.
fn i64_field(pairs: &Vec<(String, String)>, key: &str) -> (r: Option<i64>)
    ensures
        r == spec_i64_field(pair_views(pairs@), key@),
{
    match last_value_for(pairs, key) {
        Some(v) => parse_i64(v.as_str()),
        None => None,
    }
}

/// The boolean field under `key`.
fn bool_field(pairs: &Vec<(String, String)>, key: &str) -> (r: Option<bool>)
    ensures
        r == spec_bool_field(pair_views(pairs@), key@),
{
    match last_value_for(pairs, key) {
        Some(v) => parse_bool(v.as_str()),
        None => None,
    }
}

} // verus!

verus! {

/// An optional owned string carries exactly this optional character
/// sequence.
pub open spec fn opt_str_matches(o: Option<String>, s: Option<Seq<char>>) -> bool {
    match o {
        Some(v) => s is Some && v@ == s->0,
        None => s is None,
    }
}

/// A list of owned strings carries exactly these character sequences.
pub open spec fn vec_str_matches(o: Seq<String>, s: Seq<Seq<char>>) -> bool {
    o.len() == s.len() && forall|i: int| 0 <= i < o.len() ==> #[trigger] o[i]@ == s[i]
}

/// How a parsed filter request relates to the decoded query pairs it came
/// from: every field holds the parsed value of its last occurrence (or all
/// occurrences, for the repeatable group fields), with absent and
/// unparseable input treated as absent.
pub open spec fn params_match(p: UnifiedSearchParams, ps: Seq<(Seq<char>, Seq<char>)>) -> bool {
    &&& p.page == spec_i64_field(ps, "page"@)
    &&& p.limit == spec_i64_field(ps, "limit"@)
    &&& opt_str_matches(p.search_type, last_value(ps, "search_type"@))
    &&& p.main_parent_id == spec_i32_field(ps, "main_parent_id"@)
    &&& p.parent_left_id == spec_i32_field(ps, "parent_left_id"@)
    &&& p.parent_right_id == spec_i32_field(ps, "parent_right_id"@)
    &&& p.parent_rank == spec_i32_field(ps, "parent_rank"@)
    &&& p.parent_rarity == spec_i32_field(ps, "parent_rarity"@)
    &&& vec_str_matches(p.blue_sparks@, all_values(ps, "blue_sparks"@))
    &&& vec_str_matches(p.pink_sparks@, all_values(ps, "pink_sparks"@))
    &&& vec_str_matches(p.green_sparks@, all_values(ps, "green_sparks"@))
    &&& vec_str_matches(p.white_sparks@, all_values(ps, "white_sparks"@))
    &&& p.blue_sparks_9star == spec_bool_field(ps, "blue_sparks_9star"@)
    &&& p.pink_sparks_9star == spec_bool_field(ps, "pink_sparks_9star"@)
    &&& p.green_sparks_9star == spec_bool_field(ps, "green_sparks_9star"@)
    &&& vec_str_matches(p.main_parent_blue_sparks@, all_values(ps, "main_parent_blue_sparks"@))
    &&& vec_str_matches(p.main_parent_pink_sparks@, all_values(ps, "main_parent_pink_sparks"@))
    &&& vec_str_matches(p.main_parent_green_sparks@, all_values(ps, "main_parent_green_sparks"@))
    &&& vec_str_matches(p.main_parent_white_sparks@, all_values(ps, "main_parent_white_sparks"@))
    &&& p.min_win_count == spec_i32_field(ps, "min_win_count"@)
    &&& p.min_white_count == spec_i32_field(ps, "min_white_count"@)
    &&& p.min_main_blue_factors == spec_i32_field(ps, "min_main_blue_factors"@)
    &&& p.min_main_pink_factors == spec_i32_field(ps, "min_main_pink_factors"@)
    &&& p.min_main_green_factors == spec_i32_field(ps, "min_main_green_factors"@)
    &&& vec_str_matches(p.main_white_factors@, all_values(ps, "main_white_factors"@))
    &&& p.min_main_white_count == spec_i32_field(ps, "min_main_white_count"@)
    &&& vec_str_matches(p.optional_white_sparks@, all_values(ps, "optional_white_sparks"@))
    &&& vec_str_matches(
        p.optional_main_white_factors@,
        if all_values(ps, "optional_main_white_factors"@).len() > 0 {
            all_values(ps, "optional_main_white_factors"@)
        } else {
            all_values(ps, "optional_main_white_sparks"@)
        },
    )
    &&& p.support_card_id == spec_i32_field(ps, "support_card_id"@)
    &&& p.min_limit_break == spec_i32_field(ps, "min_limit_break"@)
    &&& p.max_limit_break == spec_i32_field(ps, "max_limit_break"@)
    &&& p.min_experience == spec_i32_field(ps, "min_experience"@)
    &&& opt_str_matches(p.trainer_id, last_value(ps, "trainer_id"@))
    &&& opt_str_matches(p.trainer_name, last_value(ps, "trainer_name"@))
    &&& p.max_follower_num == spec_i32_field(ps, "max_follower_num"@)
    &&& opt_str_matches(p.sort_by, last_value(ps, "sort_by"@))
    &&& opt_str_matches(p.sort_order, last_value(ps, "sort_order"@))
    &&& p.player_chara_id == spec_i32_field(ps, "player_chara_id"@)
    &&& p.player_chara_id_2 == spec_i32_field(ps, "player_chara_id_2"@)
    &&& p.desired_main_chara_id == spec_i32_field(ps, "desired_main_chara_id"@)
}

/// Build the filter request from decoded query pairs.
pub fn filter_request_from_pairs(pairs: &Vec<(String, String)>) -> (p: UnifiedSearchParams)
    ensures
        params_match(p, pair_views(pairs@)),
{
    let optional_main_white_factors = {
        let v = all_values_for(pairs, "optional_main_white_factors");
        if v.len() == 0 {
            all_values_for(pairs, "optional_main_white_sparks")
        } else {
            v
        }
    };
    UnifiedSearchParams {
        page: i64_field(pairs, "page"),
        limit: i64_field(pairs, "limit"),
        search_type: last_value_for(pairs, "search_type"),
        main_parent_id: i32_field(pairs, "main_parent_id"),
        parent_left_id: i32_field(pairs, "parent_left_id"),
        parent_right_id: i32_field(pairs, "parent_right_id"),
        parent_rank: i32_field(pairs, "parent_rank"),
        parent_rarity: i32_field(pairs, "parent_rarity"),
        blue_sparks: all_values_for(pairs, "blue_sparks"),
        pink_sparks: all_values_for(pairs, "pink_sparks"),
        green_sparks: all_values_for(pairs, "green_sparks"),
        white_sparks: all_values_for(pairs, "white_sparks"),
        blue_sparks_9star: bool_field(pairs, "blue_sparks_9star"),
        pink_sparks_9star: bool_field(pairs, "pink_sparks_9star"),
        green_sparks_9star: bool_field(pairs, "green_sparks_9star"),
        main_parent_blue_sparks: all_values_for(pairs, "main_parent_blue_sparks"),
        main_parent_pink_sparks: all_values_for(pairs, "main_parent_pink_sparks"),
        main_parent_green_sparks: all_values_for(pairs, "main_parent_green_sparks"),
        main_parent_white_sparks: all_values_for(pairs, "main_parent_white_sparks"),
        min_win_count: i32_field(pairs, "min_win_count"),
        min_white_count: i32_field(pairs, "min_white_count"),
        min_main_blue_factors: i32_field(pairs, "min_main_blue_factors"),
        min_main_pink_factors: i32_field(pairs, "min_main_pink_factors"),
        min_main_green_factors: i32_field(pairs, "min_main_green_factors"),
        main_white_factors: all_values_for(pairs, "main_white_factors"),
        min_main_white_count: i32_field(pairs, "min_main_white_count"),
        optional_white_sparks: all_values_for(pairs, "optional_white_sparks"),
        optional_main_white_factors,
        support_card_id: i32_field(pairs, "support_card_id"),
        min_limit_break: i32_field(pairs, "min_limit_break"),
        max_limit_break: i32_field(pairs, "max_limit_break"),
        min_experience: i32_field(pairs, "min_experience"),
        trainer_id: last_value_for(pairs, "trainer_id"),
        trainer_name: last_value_for(pairs, "trainer_name"),
        max_follower_num: i32_field(pairs, "max_follower_num"),
        sort_by: last_value_for(pairs, "sort_by"),
        sort_order: last_value_for(pairs, "sort_order"),
        player_chara_id: i32_field(pairs, "player_chara_id"),
        player_chara_id_2: i32_field(pairs, "player_chara_id_2"),
        desired_main_chara_id: i32_field(pairs, "desired_main_chara_id"),
    }
}

/// Parse a raw query string into the filter request.
pub fn parse_search_params(query: &str) -> (p: UnifiedSearchParams)
    ensures
        params_match(p, query_pairs(query@)),
{
    let pairs = parse_query_pairs(query);
    proof {
        assert(pair_views(pairs@) =~= query_pairs(query@));
    }
    filter_request_from_pairs(&pairs)
}

/// Whether the request is "blank": every optional filter field at its
/// default or absent value.  Pagination, sort and search type play no part.
/// A few fields also count specific values as defaults: a minimum rank of
/// one, minimum counts of zero, and the standard follower ceilings.
pub open spec fn is_blank_spec(p: UnifiedSearchParams) -> bool {
    &&& p.trainer_id is None
    &&& p.trainer_name is None
    &&& p.main_parent_id is None
    &&& p.parent_left_id is None
    &&& p.parent_right_id is None
    &&& (p.parent_rank is None || p.parent_rank == Some(1i32))
    &&& p.parent_rarity is None
    &&& p.blue_sparks@.len() == 0
    &&& p.pink_sparks@.len() == 0
    &&& p.green_sparks@.len() == 0
    &&& p.white_sparks@.len() == 0
    &&& p.blue_sparks_9star is None
    &&& p.pink_sparks_9star is None
    &&& p.green_sparks_9star is None
    &&& p.main_parent_blue_sparks@.len() == 0
    &&& p.main_parent_pink_sparks@.len() == 0
    &&& p.main_parent_green_sparks@.len() == 0
    &&& p.main_parent_white_sparks@.len() == 0
    &&& p.support_card_id is None
    &&& p.min_limit_break is None
    &&& p.max_limit_break is None
    &&& p.min_experience is None
    &&& (p.min_win_count is None || p.min_win_count == Some(0i32))
    &&& (p.min_white_count is None || p.min_white_count == Some(0i32))
    &&& p.min_main_blue_factors is None
    &&& p.min_main_pink_factors is None
    &&& p.min_main_green_factors is None
    &&& p.main_white_factors@.len() == 0
    &&& p.optional_white_sparks@.len() == 0
    &&& p.optional_main_white_factors@.len() == 0
    &&& (p.min_main_white_count is None || p.min_main_white_count == Some(0i32))
    &&& p.desired_main_chara_id is None
    &&& p.player_chara_id is None
    &&& (p.max_follower_num is None || p.max_follower_num == Some(1000i32)
        || p.max_follower_num == Some(999i32))
}

/// Whether an optional `i32` is absent or holds exactly `d`.
fn opt_absent_or(v: &Option<i32>, d: i32) -> (r: bool)
    ensures
        r == (*v is None || *v == Some(d)),
{
    match v {
        None => true,
        Some(x) => *x == d,
    }
}

impl UnifiedSearchParams {
    /// Classify the request: blank exactly when every optional filter field
    /// is at its default.
    pub fn is_blank_query(&self) -> (r: bool)
        ensures
            r == is_blank_spec(*self),
    {
        self.trainer_id.is_none() && self.trainer_name.is_none() && self.main_parent_id.is_none()
            && self.parent_left_id.is_none() && self.parent_right_id.is_none() && opt_absent_or(
            &self.parent_rank,
            1,
        ) && self.parent_rarity.is_none() && self.blue_sparks.len() == 0 && self.pink_sparks.len()
            == 0 && self.green_sparks.len() == 0 && self.white_sparks.len() == 0
            && self.blue_sparks_9star.is_none() && self.pink_sparks_9star.is_none()
            && self.green_sparks_9star.is_none() && self.main_parent_blue_sparks.len() == 0
            && self.main_parent_pink_sparks.len() == 0 && self.main_parent_green_sparks.len() == 0
            && self.main_parent_white_sparks.len() == 0 && self.support_card_id.is_none()
            && self.min_limit_break.is_none() && self.max_limit_break.is_none()
            && self.min_experience.is_none() && opt_absent_or(&self.min_win_count, 0)
            && opt_absent_or(&self.min_white_count, 0) && self.min_main_blue_factors.is_none()
            && self.min_main_pink_factors.is_none() && self.min_main_green_factors.is_none()
            && self.main_white_factors.len() == 0 && self.optional_white_sparks.len() == 0
            && self.optional_main_white_factors.len() == 0 && opt_absent_or(
            &self.min_main_white_count,
            0,
        ) && self.desired_main_chara_id.is_none() && self.player_chara_id.is_none() && (
        self.max_follower_num.is_none() || opt_absent_or(&self.max_follower_num, 1000)
            || opt_absent_or(&self.max_follower_num, 999))
    }
}

/// The fields that blank-query classification reads, field for field.
pub open spec fn blank_fields_equal(a: UnifiedSearchParams, b: UnifiedSearchParams) -> bool {
    &&& a.trainer_id == b.trainer_id
    &&& a.trainer_name == b.trainer_name
    &&& a.main_parent_id == b.main_parent_id
    &&& a.parent_left_id == b.parent_left_id
    &&& a.parent_right_id == b.parent_right_id
    &&& a.parent_rank == b.parent_rank
    &&& a.parent_rarity == b.parent_rarity
    &&& a.blue_sparks@.len() == b.blue_sparks@.len()
    &&& a.pink_sparks@.len() == b.pink_sparks@.len()
    &&& a.green_sparks@.len() == b.green_sparks@.len()
    &&& a.white_sparks@.len() == b.white_sparks@.len()
    &&& a.blue_sparks_9star == b.blue_sparks_9star
    &&& a.pink_sparks_9star == b.pink_sparks_9star
    &&& a.green_sparks_9star == b.green_sparks_9star
    &&& a.main_parent_blue_sparks@.len() == b.main_parent_blue_sparks@.len()
    &&& a.main_parent_pink_sparks@.len() == b.main_parent_pink_sparks@.len()
    &&& a.main_parent_green_sparks@.len() == b.main_parent_green_sparks@.len()
    &&& a.main_parent_white_sparks@.len() == b.main_parent_white_sparks@.len()
    &&& a.support_card_id == b.support_card_id
    &&& a.min_limit_break == b.min_limit_break
    &&& a.max_limit_break == b.max_limit_break
    &&& a.min_experience == b.min_experience
    &&& a.min_win_count == b.min_win_count
    &&& a.min_white_count == b.min_white_count
    &&& a.min_main_blue_factors == b.min_main_blue_factors
    &&& a.min_main_pink_factors == b.min_main_pink_factors
    &&& a.min_main_green_factors == b.min_main_green_factors
    &&& a.main_white_factors@.len() == b.main_white_factors@.len()
    &&& a.optional_white_sparks@.len() == b.optional_white_sparks@.len()
    &&& a.optional_main_white_factors@.len() == b.optional_main_white_factors@.len()
    &&& a.min_main_white_count == b.min_main_white_count
    &&& a.desired_main_chara_id == b.desired_main_chara_id
    &&& a.player_chara_id == b.player_chara_id
    &&& a.max_follower_num == b.max_follower_num
}

/// Law: blank-query classification never reads pagination, sort order,
/// sort key or search type — two requests that agree on every filter field
/// are classified alike, whatever their `page`, `limit`, `sort_by`,
/// `sort_order` or `search_type`.
pub proof fn lemma_blank_ignores_paging_and_sort(a: UnifiedSearchParams, b: UnifiedSearchParams)
    requires
        blank_fields_equal(a, b),
    ensures
        is_blank_spec(a) == is_blank_spec(b),
{
}

/// Law: a request that sets a minimum win count other than zero is never
/// classified blank, whatever its other fields.
pub proof fn lemma_min_win_count_breaks_blankness(p: UnifiedSearchParams, v: i32)
    requires
        p.min_win_count == Some(v),
        v != 0,
    ensures
        !is_blank_spec(p),
{
}

} // verus!
