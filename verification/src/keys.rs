//! Structured cache keys: a canonical, versioned serialization of the
//! filter request.  Every field is encoded into a colon-free part and the
//! parts are joined with colons, so two requests get the same key exactly
//! when every encoded field matches — the encoding is proved injective,
//! ruling out silent key collisions.
use vstd::prelude::*;

verus! {

use crate::request::UnifiedSearchParams;
use crate::text::{
    is_digit, lemma_spec_dec_digits, lemma_spec_dec_injective, lemma_spec_dec_int_injective,
    i32_to_string, i64_to_string, spec_dec, spec_dec_int, str_chars, u64_to_string,
};

/// Character-code encoding of a string: each character as its decimal code
/// point followed by a dot.  Uses only digits and dots.
pub open spec fn enc_chars(s: Seq<char>) -> Seq<char>
    decreases s.len(),
{
    if s.len() == 0 {
        Seq::<char>::empty()
    } else {
        enc_chars(s.drop_last()) + spec_dec((s.last() as u32) as nat) + seq!['.']
    }
}

/// An optional integer: `any` when absent, its decimal rendering otherwise.
pub open spec fn enc_opt_int(v: Option<int>) -> Seq<char> {
    match v {
        Some(x) => spec_dec_int(x),
        None => "any"@,
    }
}

/// An optional boolean: `any`, `true` or `false`.
pub open spec fn enc_opt_bool(v: Option<bool>) -> Seq<char> {
    match v {
        Some(true) => "true"@,
        Some(false) => "false"@,
        None => "any"@,
    }
}

/// An optional string: `any` when absent, `s` plus its character-code
/// encoding otherwise.
pub open spec fn enc_opt_str(v: Option<Seq<char>>) -> Seq<char> {
    match v {
        Some(s) => seq!['s'] + enc_chars(s),
        None => "any"@,
    }
}

/// A list of strings: `g` plus each item's character-code encoding followed
/// by a slash.
pub open spec fn enc_str_list_items(items: Seq<Seq<char>>) -> Seq<char>
    decreases items.len(),
{
    if items.len() == 0 {
        Seq::<char>::empty()
    } else {
        enc_str_list_items(items.drop_last()) + enc_chars(items.last()) + seq!['/']
    }
}

/// A list of strings, with its `g` marker.
pub open spec fn enc_str_list(items: Seq<Seq<char>>) -> Seq<char> {
    seq!['g'] + enc_str_list_items(items)
}

/// Key parts joined with colons.
pub open spec fn join_colon(parts: Seq<Seq<char>>) -> Seq<char>
    decreases parts.len(),
{
    if parts.len() == 0 {
        Seq::<char>::empty()
    } else if parts.len() == 1 {
        parts[0]
    } else {
        join_colon(parts.drop_last()) + seq![':'] + parts.last()
    }
}

/// Whether `s` avoids the character `t` entirely.
pub open spec fn avoids(s: Seq<char>, t: char) -> bool {
    forall|i: int| 0 <= i < s.len() ==> s[i] != t
}

/// Character-code encodings hold only digits and dots.
pub proof fn lemma_enc_chars_shape(s: Seq<char>)
    ensures
        forall|i: int|
            0 <= i < enc_chars(s).len() ==> is_digit(#[trigger] enc_chars(s)[i]) || enc_chars(
                s,
            )[i] == '.',
        s.len() > 0 ==> enc_chars(s).len() > 0 && enc_chars(s).last() == '.',
    decreases s.len(),
{
    if s.len() > 0 {
        lemma_enc_chars_shape(s.drop_last());
        lemma_spec_dec_digits((s.last() as u32) as nat);
        let e = enc_chars(s);
        let front = enc_chars(s.drop_last());
        let mid = spec_dec((s.last() as u32) as nat);
        assert forall|i: int| 0 <= i < e.len() implies is_digit(#[trigger] e[i]) || e[i] == '.' by {
            if i < front.len() {
                assert(e[i] == front[i]);
            } else if i < front.len() + mid.len() {
                assert(e[i] == mid[i - front.len()]);
                assert(is_digit(mid[i - front.len()]));
            } else {
                assert(e[i] == '.');
            }
        }
    }
}

/// Splitting off a terminated final token is unambiguous: if two
/// concatenations of a (possibly empty, terminator-final) head and a
/// terminator-free tail are equal, head and tail each agree.
pub proof fn lemma_split_final_token(
    u1: Seq<char>,
    d1: Seq<char>,
    u2: Seq<char>,
    d2: Seq<char>,
    t: char,
)
    requires
        u1 + d1 == u2 + d2,
        avoids(d1, t),
        avoids(d2, t),
        u1.len() > 0 ==> u1.last() == t,
        u2.len() > 0 ==> u2.last() == t,
    ensures
        u1 == u2,
        d1 == d2,
{
    let w = u1 + d1;
    assert(w.len() == u2.len() + d2.len());
    if u1.len() > u2.len() {
        assert(w[u1.len() - 1] == u1.last());
        assert(w[u1.len() - 1] == d2[u1.len() - 1 - u2.len()]);
        assert(d2[u1.len() - 1 - u2.len()] != t);
        assert(false);
    }
    if u2.len() > u1.len() {
        assert(w[u2.len() - 1] == u2.last());
        assert(w[u2.len() - 1] == d1[u2.len() - 1 - u1.len()]);
        assert(d1[u2.len() - 1 - u1.len()] != t);
        assert(false);
    }
    assert(u1.len() == u2.len());
    assert forall|i: int| 0 <= i < u1.len() implies u1[i] == u2[i] by {
        assert(w[i] == u1[i] && w[i] == u2[i]);
    }
    assert(u1 =~= u2);
    assert forall|i: int| 0 <= i < d1.len() implies d1[i] == d2[i] by {
        assert(w[u1.len() + i] == d1[i] && w[u2.len() + i] == d2[i]);
    }
    assert(d1 =~= d2);
}

/// Character-code encoding is injective.
pub proof fn lemma_enc_chars_injective(a: Seq<char>, b: Seq<char>)
    requires
        enc_chars(a) == enc_chars(b),
    ensures
        a == b,
    decreases a.len(),
{
    lemma_enc_chars_shape(a);
    lemma_enc_chars_shape(b);
    if a.len() == 0 && b.len() == 0 {
        assert(a =~= b);
    } else if a.len() == 0 {
        assert(enc_chars(a).len() == 0);
        assert(enc_chars(b).len() > 0);
    } else if b.len() == 0 {
        assert(enc_chars(b).len() == 0);
        assert(enc_chars(a).len() > 0);
    } else {
        let fa = enc_chars(a.drop_last());
        let fb = enc_chars(b.drop_last());
        let da = spec_dec((a.last() as u32) as nat);
        let db = spec_dec((b.last() as u32) as nat);
        lemma_spec_dec_digits((a.last() as u32) as nat);
        lemma_spec_dec_digits((b.last() as u32) as nat);
        lemma_enc_chars_shape(a.drop_last());
        lemma_enc_chars_shape(b.drop_last());
        // Strip the final dot, then split off the final code token.
        let wa = fa + da;
        let wb = fb + db;
        assert(enc_chars(a) =~= wa + seq!['.']);
        assert(enc_chars(b) =~= wb + seq!['.']);
        assert(wa.len() == wb.len());
        assert forall|i: int| 0 <= i < wa.len() implies wa[i] == wb[i] by {
            assert((wa + seq!['.'])[i] == wa[i]);
            assert((wb + seq!['.'])[i] == wb[i]);
        }
        assert(wa =~= wb);
        assert(avoids(da, '.')) by {
            assert forall|i: int| 0 <= i < da.len() implies da[i] != '.' by {
                assert(is_digit(da[i]));
            }
        }
        assert(avoids(db, '.')) by {
            assert forall|i: int| 0 <= i < db.len() implies db[i] != '.' by {
                assert(is_digit(db[i]));
            }
        }
        lemma_split_final_token(fa, da, fb, db, '.');
        lemma_spec_dec_injective((a.last() as u32) as nat, (b.last() as u32) as nat);
        assert(a.last() as u32 == b.last() as u32);
        vstd::utf8::char_u32_cast(a.last(), a.last() as u32);
        vstd::utf8::char_u32_cast(b.last(), b.last() as u32);
        assert(a.last() == b.last());
        lemma_enc_chars_injective(a.drop_last(), b.drop_last());
        assert(a =~= a.drop_last().push(a.last()));
        assert(b =~= b.drop_last().push(b.last()));
    }
}

/// List encoding is injective in the list of items.
pub proof fn lemma_enc_str_list_items_injective(a: Seq<Seq<char>>, b: Seq<Seq<char>>)
    requires
        enc_str_list_items(a) == enc_str_list_items(b),
    ensures
        a =~~= b,
    decreases a.len(),
{
    lemma_enc_list_shape(a);
    lemma_enc_list_shape(b);
    if a.len() == 0 && b.len() == 0 {
    } else if a.len() == 0 {
        assert(enc_str_list_items(b).len() > 0);
    } else if b.len() == 0 {
        assert(enc_str_list_items(a).len() > 0);
    } else {
        let fa = enc_str_list_items(a.drop_last());
        let fb = enc_str_list_items(b.drop_last());
        let da = enc_chars(a.last());
        let db = enc_chars(b.last());
        lemma_enc_chars_shape(a.last());
        lemma_enc_chars_shape(b.last());
        lemma_enc_list_shape(a.drop_last());
        lemma_enc_list_shape(b.drop_last());
        let wa = fa + da;
        let wb = fb + db;
        assert(enc_str_list_items(a) =~= wa + seq!['/']);
        assert(enc_str_list_items(b) =~= wb + seq!['/']);
        assert(wa.len() == wb.len());
        assert forall|i: int| 0 <= i < wa.len() implies wa[i] == wb[i] by {
            assert((wa + seq!['/'])[i] == wa[i]);
            assert((wb + seq!['/'])[i] == wb[i]);
        }
        assert(wa =~= wb);
        assert(avoids(da, '/')) by {
            assert forall|i: int| 0 <= i < da.len() implies da[i] != '/' by {
                assert(is_digit(da[i]) || da[i] == '.');
            }
        }
        assert(avoids(db, '/')) by {
            assert forall|i: int| 0 <= i < db.len() implies db[i] != '/' by {
                assert(is_digit(db[i]) || db[i] == '.');
            }
        }
        lemma_split_final_token(fa, da, fb, db, '/');
        lemma_enc_chars_injective(a.last(), b.last());
        lemma_enc_str_list_items_injective(a.drop_last(), b.drop_last());
        assert(a =~~= a.drop_last().push(a.last()));
        assert(b =~~= b.drop_last().push(b.last()));
    }
}

/// List encodings hold only digits, dots and slashes, and end with a slash.
pub proof fn lemma_enc_list_shape(items: Seq<Seq<char>>)
    ensures
        forall|i: int|
            0 <= i < enc_str_list_items(items).len() ==> is_digit(
                #[trigger] enc_str_list_items(items)[i],
            ) || enc_str_list_items(items)[i] == '.' || enc_str_list_items(items)[i] == '/',
        items.len() > 0 ==> enc_str_list_items(items).len() > 0 && enc_str_list_items(
            items,
        ).last() == '/',
    decreases items.len(),
{
    if items.len() > 0 {
        lemma_enc_list_shape(items.drop_last());
        lemma_enc_chars_shape(items.last());
        let e = enc_str_list_items(items);
        let front = enc_str_list_items(items.drop_last());
        let mid = enc_chars(items.last());
        assert forall|i: int|
            0 <= i < e.len() implies is_digit(#[trigger] e[i]) || e[i] == '.' || e[i] == '/' by {
            if i < front.len() {
                assert(e[i] == front[i]);
            } else if i < front.len() + mid.len() {
                assert(e[i] == mid[i - front.len()]);
            } else {
                assert(e[i] == '/');
            }
        }
    }
}

} // verus!

verus! {

/// The view of an optional owned string.
pub open spec fn opt_view(o: Option<String>) -> Option<Seq<char>> {
    match o {
        Some(s) => Some(s@),
        None => None,
    }
}

/// The integer value of an optional `i32`.
pub open spec fn opt_int32(o: Option<i32>) -> Option<int> {
    match o {
        Some(v) => Some(v as int),
        None => None,
    }
}

/// The integer value of an optional `i64`.
pub open spec fn opt_int64(o: Option<i64>) -> Option<int> {
    match o {
        Some(v) => Some(v as int),
        None => None,
    }
}

/// The views of a list of owned strings.
pub open spec fn str_views(items: Seq<String>) -> Seq<Seq<char>> {
    items.map_values(|s: String| s@)
}

/// Encode a string's characters as code points and dots.
#[verifier::loop_isolation(false)]
fn enc_chars_exec(s: &str) -> (r: String)
    ensures
        r@ == enc_chars(s@),
{
    let cs = str_chars(s);
    let mut r = String::new();
    proof {
        reveal_strlit(".");
    }
    let mut i: usize = 0;
    while i < cs.len()
        invariant
            i <= cs@.len(),
            r@ == enc_chars(cs@.take(i as int)),
        decreases cs@.len() - i,
    {
        let code = u64_to_string((cs[i] as u32) as u64);
        r.append(code.as_str());
        r.append(".");
        proof {
            assert(cs@.take(i as int + 1).drop_last() =~= cs@.take(i as int));
            assert(cs@.take(i as int + 1).last() == cs@[i as int]);
            assert(r@ =~= enc_chars(cs@.take(i as int + 1)));
        }
        i += 1;
    }
    proof {
        assert(cs@.take(cs@.len() as int) =~= cs@);
    }
    r
}

/// Encode an optional `i32` field.
fn enc_opt_i32_exec(v: &Option<i32>) -> (r: String)
    ensures
        r@ == enc_opt_int(opt_int32(*v)),
{
    match v {
        Some(x) => i32_to_string(*x),
        None => String::from_str("any"),
    }
}

/// Encode an optional `i64` field.
fn enc_opt_i64_exec(v: &Option<i64>) -> (r: String)
    ensures
        r@ == enc_opt_int(opt_int64(*v)),
{
    match v {
        Some(x) => i64_to_string(*x),
        None => String::from_str("any"),
    }
}

/// Encode an optional boolean field.
fn enc_opt_bool_exec(v: &Option<bool>) -> (r: String)
    ensures
        r@ == enc_opt_bool(*v),
{
    match v {
        Some(true) => String::from_str("true"),
        Some(false) => String::from_str("false"),
        None => String::from_str("any"),
    }
}

/// Encode an optional string field.
fn enc_opt_str_exec(v: &Option<String>) -> (r: String)
    ensures
        r@ == enc_opt_str(opt_view(*v)),
{
    match v {
        Some(s) => {
            proof {
                reveal_strlit("s");
            }
            let mut r = String::from_str("s");
            let e = enc_chars_exec(s.as_str());
            r.append(e.as_str());
            proof {
                assert(r@ =~= enc_opt_str(opt_view(Some(*s))));
            }
            r
        },
        None => String::from_str("any"),
    }
}

/// Encode a repeatable string field.
#[verifier::loop_isolation(false)]
fn enc_str_list_exec(items: &Vec<String>) -> (r: String)
    ensures
        r@ == enc_str_list(str_views(items@)),
{
    proof {
        reveal_strlit("g");
        reveal_strlit("/");
    }
    let mut r = String::from_str("g");
    let ghost views = str_views(items@);
    proof {
        assert(r@ =~= seq!['g'] + enc_str_list_items(views.take(0)));
    }
    let mut i: usize = 0;
    while i < items.len()
        invariant
            i <= items@.len(),
            views == str_views(items@),
            views.len() == items@.len(),
            forall|j: int| 0 <= j < views.len() ==> #[trigger] views[j] == items@[j]@,
            r@ == seq!['g'] + enc_str_list_items(views.take(i as int)),
        decreases items@.len() - i,
    {
        let e = enc_chars_exec(items[i].as_str());
        r.append(e.as_str());
        r.append("/");
        proof {
            assert(views.take(i as int + 1).drop_last() =~= views.take(i as int));
            assert(views.take(i as int + 1).last() == views[i as int]);
            assert(r@ =~= seq!['g'] + enc_str_list_items(views.take(i as int + 1)));
        }
        i += 1;
    }
    proof {
        assert(views.take(views.len() as int) =~= views);
    }
    r
}

/// Join key parts with colons.
#[verifier::loop_isolation(false)]
fn join_parts(parts: &Vec<String>) -> (r: String)
    ensures
        r@ == join_colon(str_views(parts@)),
{
    proof {
        reveal_strlit(":");
    }
    let mut r = String::new();
    let ghost views = str_views(parts@);
    let mut i: usize = 0;
    proof {
        assert(r@ =~= join_colon(views.take(0)));
    }
    while i < parts.len()
        invariant
            i <= parts@.len(),
            views == str_views(parts@),
            views.len() == parts@.len(),
            forall|j: int| 0 <= j < views.len() ==> #[trigger] views[j] == parts@[j]@,
            r@ == join_colon(views.take(i as int)),
        decreases parts@.len() - i,
    {
        if i > 0 {
            r.append(":");
        }
        r.append(parts[i].as_str());
        proof {
            assert(views.take(i as int + 1).drop_last() =~= views.take(i as int));
            assert(views.take(i as int + 1).last() == views[i as int]);
            if i == 0 {
                assert(views.take(1).len() == 1);
                assert(r@ =~= join_colon(views.take(1)));
            } else {
                assert(r@ =~= join_colon(views.take(i as int + 1)));
            }
        }
        i += 1;
    }
    proof {
        assert(views.take(views.len() as int) =~= views);
    }
    r
}

} // verus!

verus! {

/// The parts of the search cache key: a version stamp, then every field of
/// the request in declaration order.
pub open spec fn search_key_parts(p: UnifiedSearchParams) -> Seq<Seq<char>> {
    seq![
        "search"@,
        "v1"@,
        enc_opt_int(opt_int64(p.page)),
        enc_opt_int(opt_int64(p.limit)),
        enc_opt_str(opt_view(p.search_type)),
        enc_opt_int(opt_int32(p.main_parent_id)),
        enc_opt_int(opt_int32(p.parent_left_id)),
        enc_opt_int(opt_int32(p.parent_right_id)),
        enc_opt_int(opt_int32(p.parent_rank)),
        enc_opt_int(opt_int32(p.parent_rarity)),
        enc_str_list(str_views(p.blue_sparks@)),
        enc_str_list(str_views(p.pink_sparks@)),
        enc_str_list(str_views(p.green_sparks@)),
        enc_str_list(str_views(p.white_sparks@)),
        enc_opt_bool(p.blue_sparks_9star),
        enc_opt_bool(p.pink_sparks_9star),
        enc_opt_bool(p.green_sparks_9star),
        enc_str_list(str_views(p.main_parent_blue_sparks@)),
        enc_str_list(str_views(p.main_parent_pink_sparks@)),
        enc_str_list(str_views(p.main_parent_green_sparks@)),
        enc_str_list(str_views(p.main_parent_white_sparks@)),
        enc_opt_int(opt_int32(p.min_win_count)),
        enc_opt_int(opt_int32(p.min_white_count)),
        enc_opt_int(opt_int32(p.min_main_blue_factors)),
        enc_opt_int(opt_int32(p.min_main_pink_factors)),
        enc_opt_int(opt_int32(p.min_main_green_factors)),
        enc_str_list(str_views(p.main_white_factors@)),
        enc_opt_int(opt_int32(p.min_main_white_count)),
        enc_str_list(str_views(p.optional_white_sparks@)),
        enc_str_list(str_views(p.optional_main_white_factors@)),
        enc_opt_int(opt_int32(p.support_card_id)),
        enc_opt_int(opt_int32(p.min_limit_break)),
        enc_opt_int(opt_int32(p.max_limit_break)),
        enc_opt_int(opt_int32(p.min_experience)),
        enc_opt_str(opt_view(p.trainer_id)),
        enc_opt_str(opt_view(p.trainer_name)),
        enc_opt_int(opt_int32(p.max_follower_num)),
        enc_opt_str(opt_view(p.sort_by)),
        enc_opt_str(opt_view(p.sort_order)),
        enc_opt_int(opt_int32(p.player_chara_id)),
        enc_opt_int(opt_int32(p.player_chara_id_2)),
        enc_opt_int(opt_int32(p.desired_main_chara_id)),
    ]
}

/// The search cache key: the canonical serialization of the whole request.
pub open spec fn spec_search_key(p: UnifiedSearchParams) -> Seq<char> {
    join_colon(search_key_parts(p))
}

/// Build the search cache key of a request.
pub fn search_cache_key(p: &UnifiedSearchParams) -> (r: String)
    ensures
        r@ == spec_search_key(*p),
{
    let mut parts: Vec<String> = Vec::new();
    parts.push(String::from_str("search"));
    parts.push(String::from_str("v1"));
    parts.push(enc_opt_i64_exec(&p.page));
    parts.push(enc_opt_i64_exec(&p.limit));
    parts.push(enc_opt_str_exec(&p.search_type));
    parts.push(enc_opt_i32_exec(&p.main_parent_id));
    parts.push(enc_opt_i32_exec(&p.parent_left_id));
    parts.push(enc_opt_i32_exec(&p.parent_right_id));
    parts.push(enc_opt_i32_exec(&p.parent_rank));
    parts.push(enc_opt_i32_exec(&p.parent_rarity));
    parts.push(enc_str_list_exec(&p.blue_sparks));
    parts.push(enc_str_list_exec(&p.pink_sparks));
    parts.push(enc_str_list_exec(&p.green_sparks));
    parts.push(enc_str_list_exec(&p.white_sparks));
    parts.push(enc_opt_bool_exec(&p.blue_sparks_9star));
    parts.push(enc_opt_bool_exec(&p.pink_sparks_9star));
    parts.push(enc_opt_bool_exec(&p.green_sparks_9star));
    parts.push(enc_str_list_exec(&p.main_parent_blue_sparks));
    parts.push(enc_str_list_exec(&p.main_parent_pink_sparks));
    parts.push(enc_str_list_exec(&p.main_parent_green_sparks));
    parts.push(enc_str_list_exec(&p.main_parent_white_sparks));
    parts.push(enc_opt_i32_exec(&p.min_win_count));
    parts.push(enc_opt_i32_exec(&p.min_white_count));
    parts.push(enc_opt_i32_exec(&p.min_main_blue_factors));
    parts.push(enc_opt_i32_exec(&p.min_main_pink_factors));
    parts.push(enc_opt_i32_exec(&p.min_main_green_factors));
    parts.push(enc_str_list_exec(&p.main_white_factors));
    parts.push(enc_opt_i32_exec(&p.min_main_white_count));
    parts.push(enc_str_list_exec(&p.optional_white_sparks));
    parts.push(enc_str_list_exec(&p.optional_main_white_factors));
    parts.push(enc_opt_i32_exec(&p.support_card_id));
    parts.push(enc_opt_i32_exec(&p.min_limit_break));
    parts.push(enc_opt_i32_exec(&p.max_limit_break));
    parts.push(enc_opt_i32_exec(&p.min_experience));
    parts.push(enc_opt_str_exec(&p.trainer_id));
    parts.push(enc_opt_str_exec(&p.trainer_name));
    parts.push(enc_opt_i32_exec(&p.max_follower_num));
    parts.push(enc_opt_str_exec(&p.sort_by));
    parts.push(enc_opt_str_exec(&p.sort_order));
    parts.push(enc_opt_i32_exec(&p.player_chara_id));
    parts.push(enc_opt_i32_exec(&p.player_chara_id_2));
    parts.push(enc_opt_i32_exec(&p.desired_main_chara_id));
    let r = join_parts(&parts);
    proof {
        assert(str_views(parts@) =~~= search_key_parts(*p));
    }
    r
}

} // verus!

verus! {

/// The parts of the count cache key: a version stamp, then every filter
/// field — pagination and sort order are left out, since the count does not
/// depend on them.
pub open spec fn count_key_parts(p: UnifiedSearchParams) -> Seq<Seq<char>> {
    seq![
        "count"@,
        "v1"@,
        enc_opt_str(opt_view(p.search_type)),
        enc_opt_int(opt_int32(p.main_parent_id)),
        enc_opt_int(opt_int32(p.parent_left_id)),
        enc_opt_int(opt_int32(p.parent_right_id)),
        enc_opt_int(opt_int32(p.parent_rank)),
        enc_opt_int(opt_int32(p.parent_rarity)),
        enc_str_list(str_views(p.blue_sparks@)),
        enc_str_list(str_views(p.pink_sparks@)),
        enc_str_list(str_views(p.green_sparks@)),
        enc_str_list(str_views(p.white_sparks@)),
        enc_opt_bool(p.blue_sparks_9star),
        enc_opt_bool(p.pink_sparks_9star),
        enc_opt_bool(p.green_sparks_9star),
        enc_str_list(str_views(p.main_parent_blue_sparks@)),
        enc_str_list(str_views(p.main_parent_pink_sparks@)),
        enc_str_list(str_views(p.main_parent_green_sparks@)),
        enc_str_list(str_views(p.main_parent_white_sparks@)),
        enc_opt_int(opt_int32(p.min_win_count)),
        enc_opt_int(opt_int32(p.min_white_count)),
        enc_opt_int(opt_int32(p.min_main_blue_factors)),
        enc_opt_int(opt_int32(p.min_main_pink_factors)),
        enc_opt_int(opt_int32(p.min_main_green_factors)),
        enc_str_list(str_views(p.main_white_factors@)),
        enc_opt_int(opt_int32(p.min_main_white_count)),
        enc_opt_int(opt_int32(p.support_card_id)),
        enc_opt_int(opt_int32(p.min_limit_break)),
        enc_opt_int(opt_int32(p.max_limit_break)),
        enc_opt_int(opt_int32(p.min_experience)),
        enc_opt_str(opt_view(p.trainer_id)),
        enc_opt_str(opt_view(p.trainer_name)),
        enc_opt_int(opt_int32(p.max_follower_num)),
        enc_opt_int(opt_int32(p.player_chara_id)),
        enc_opt_int(opt_int32(p.desired_main_chara_id)),
    ]
}

/// The count cache key.
pub open spec fn spec_count_key(p: UnifiedSearchParams) -> Seq<char> {
    join_colon(count_key_parts(p))
}

/// Build the count cache key of a request.
pub fn count_cache_key(p: &UnifiedSearchParams) -> (r: String)
    ensures
        r@ == spec_count_key(*p),
{
    let mut parts: Vec<String> = Vec::new();
    parts.push(String::from_str("count"));
    parts.push(String::from_str("v1"));
    parts.push(enc_opt_str_exec(&p.search_type));
    parts.push(enc_opt_i32_exec(&p.main_parent_id));
    parts.push(enc_opt_i32_exec(&p.parent_left_id));
    parts.push(enc_opt_i32_exec(&p.parent_right_id));
    parts.push(enc_opt_i32_exec(&p.parent_rank));
    parts.push(enc_opt_i32_exec(&p.parent_rarity));
    parts.push(enc_str_list_exec(&p.blue_sparks));
    parts.push(enc_str_list_exec(&p.pink_sparks));
    parts.push(enc_str_list_exec(&p.green_sparks));
    parts.push(enc_str_list_exec(&p.white_sparks));
    parts.push(enc_opt_bool_exec(&p.blue_sparks_9star));
    parts.push(enc_opt_bool_exec(&p.pink_sparks_9star));
    parts.push(enc_opt_bool_exec(&p.green_sparks_9star));
    parts.push(enc_str_list_exec(&p.main_parent_blue_sparks));
    parts.push(enc_str_list_exec(&p.main_parent_pink_sparks));
    parts.push(enc_str_list_exec(&p.main_parent_green_sparks));
    parts.push(enc_str_list_exec(&p.main_parent_white_sparks));
    parts.push(enc_opt_i32_exec(&p.min_win_count));
    parts.push(enc_opt_i32_exec(&p.min_white_count));
    parts.push(enc_opt_i32_exec(&p.min_main_blue_factors));
    parts.push(enc_opt_i32_exec(&p.min_main_pink_factors));
    parts.push(enc_opt_i32_exec(&p.min_main_green_factors));
    parts.push(enc_str_list_exec(&p.main_white_factors));
    parts.push(enc_opt_i32_exec(&p.min_main_white_count));
    parts.push(enc_opt_i32_exec(&p.support_card_id));
    parts.push(enc_opt_i32_exec(&p.min_limit_break));
    parts.push(enc_opt_i32_exec(&p.max_limit_break));
    parts.push(enc_opt_i32_exec(&p.min_experience));
    parts.push(enc_opt_str_exec(&p.trainer_id));
    parts.push(enc_opt_str_exec(&p.trainer_name));
    parts.push(enc_opt_i32_exec(&p.max_follower_num));
    parts.push(enc_opt_i32_exec(&p.player_chara_id));
    parts.push(enc_opt_i32_exec(&p.desired_main_chara_id));
    let r = join_parts(&parts);
    proof {
        assert(str_views(parts@) =~~= count_key_parts(*p));
    }
    r
}

} // verus!

verus! {

/// `any` never collides with an integer rendering, so the optional-integer
/// encoding is injective.
proof fn lemma_enc_opt_int_injective(x: Option<int>, y: Option<int>)
    requires
        enc_opt_int(x) == enc_opt_int(y),
    ensures
        x == y,
{
    reveal_strlit("any");
    match x {
        Some(vx) => {
            lemma_spec_dec_digits(if vx < 0 {
                (-vx) as nat
            } else {
                vx as nat
            });
            assert(is_digit(spec_dec_int(vx)[0]) || spec_dec_int(vx)[0] == '-');
            match y {
                Some(vy) => {
                    lemma_spec_dec_int_injective(vx, vy);
                },
                None => {
                    assert(enc_opt_int(y)[0] == 'a');
                    assert(false);
                },
            }
        },
        None => {
            match y {
                Some(vy) => {
                    lemma_spec_dec_digits(if vy < 0 {
                        (-vy) as nat
                    } else {
                        vy as nat
                    });
                    assert(is_digit(spec_dec_int(vy)[0]) || spec_dec_int(vy)[0] == '-');
                    assert(enc_opt_int(x)[0] == 'a');
                    assert(false);
                },
                None => {},
            }
        },
    }
}

/// `any`, `true` and `false` have three different lengths, so the optional-
/// boolean encoding is injective.
proof fn lemma_enc_opt_bool_injective(x: Option<bool>, y: Option<bool>)
    requires
        enc_opt_bool(x) == enc_opt_bool(y),
    ensures
        x == y,
{
    reveal_strlit("any");
    reveal_strlit("true");
    reveal_strlit("false");
    assert("any"@.len() == 3);
    assert("true"@.len() == 4);
    assert("false"@.len() == 5);
    match x {
        Some(true) => {
            assert(enc_opt_bool(x).len() == 4);
        },
        Some(false) => {
            assert(enc_opt_bool(x).len() == 5);
        },
        None => {
            assert(enc_opt_bool(x).len() == 3);
        },
    }
    match y {
        Some(true) => {
            assert(enc_opt_bool(y).len() == 4);
        },
        Some(false) => {
            assert(enc_opt_bool(y).len() == 5);
        },
        None => {
            assert(enc_opt_bool(y).len() == 3);
        },
    }
}

/// `any` starts with `a`, an encoded string with `s`, so the optional-
/// string encoding is injective.
proof fn lemma_enc_opt_str_injective(x: Option<Seq<char>>, y: Option<Seq<char>>)
    requires
        enc_opt_str(x) == enc_opt_str(y),
    ensures
        x == y,
{
    reveal_strlit("any");
    match x {
        Some(sx) => {
            match y {
                Some(sy) => {
                    let ex = seq!['s'] + enc_chars(sx);
                    let ey = seq!['s'] + enc_chars(sy);
                    assert(ex.len() == ey.len());
                    assert forall|i: int| 0 <= i < enc_chars(sx).len() implies enc_chars(sx)[i]
                        == enc_chars(sy)[i] by {
                        assert(ex[i + 1] == enc_chars(sx)[i]);
                        assert(ey[i + 1] == enc_chars(sy)[i]);
                    }
                    assert(enc_chars(sx) =~= enc_chars(sy));
                    lemma_enc_chars_injective(sx, sy);
                },
                None => {
                    assert(enc_opt_str(x)[0] == 's');
                    assert(enc_opt_str(y)[0] == 'a');
                    assert(false);
                },
            }
        },
        None => {
            match y {
                Some(sy) => {
                    assert(enc_opt_str(y)[0] == 's');
                    assert(enc_opt_str(x)[0] == 'a');
                    assert(false);
                },
                None => {},
            }
        },
    }
}

/// The list encoding is injective in the item views.
proof fn lemma_enc_str_list_injective(x: Seq<Seq<char>>, y: Seq<Seq<char>>)
    requires
        enc_str_list(x) == enc_str_list(y),
    ensures
        x =~~= y,
{
    let ex = seq!['g'] + enc_str_list_items(x);
    let ey = seq!['g'] + enc_str_list_items(y);
    assert(ex.len() == ey.len());
    assert forall|i: int| 0 <= i < enc_str_list_items(x).len() implies enc_str_list_items(x)[i]
        == enc_str_list_items(y)[i] by {
        assert(ex[i + 1] == enc_str_list_items(x)[i]);
        assert(ey[i + 1] == enc_str_list_items(y)[i]);
    }
    assert(enc_str_list_items(x) =~= enc_str_list_items(y));
    lemma_enc_str_list_items_injective(x, y);
}

/// No encoded part contains a colon.
proof fn lemma_enc_opt_int_colon_free(v: Option<int>)
    ensures
        avoids(enc_opt_int(v), ':'),
{
    reveal_strlit("any");
    match v {
        Some(x) => {
            let m = if x < 0 {
                (-x) as nat
            } else {
                x as nat
            };
            lemma_spec_dec_digits(m);
            assert forall|i: int| 0 <= i < enc_opt_int(v).len() implies enc_opt_int(v)[i]
                != ':' by {
                if x < 0 {
                    if i > 0 {
                        assert(enc_opt_int(v)[i] == spec_dec(m)[i - 1]);
                        assert(is_digit(spec_dec(m)[i - 1]));
                    }
                } else {
                    assert(is_digit(spec_dec(m)[i]));
                }
            }
        },
        None => {},
    }
}

/// No encoded boolean part contains a colon.
proof fn lemma_enc_opt_bool_colon_free(v: Option<bool>)
    ensures
        avoids(enc_opt_bool(v), ':'),
{
    reveal_strlit("any");
    reveal_strlit("true");
    reveal_strlit("false");
}

/// No encoded string part contains a colon.
proof fn lemma_enc_opt_str_colon_free(v: Option<Seq<char>>)
    ensures
        avoids(enc_opt_str(v), ':'),
{
    reveal_strlit("any");
    match v {
        Some(s) => {
            lemma_enc_chars_shape(s);
            assert forall|i: int| 0 <= i < enc_opt_str(v).len() implies enc_opt_str(v)[i]
                != ':' by {
                if i > 0 {
                    assert(enc_opt_str(v)[i] == enc_chars(s)[i - 1]);
                    assert(is_digit(enc_chars(s)[i - 1]) || enc_chars(s)[i - 1] == '.');
                }
            }
        },
        None => {},
    }
}

/// No encoded list part contains a colon.
proof fn lemma_enc_str_list_colon_free(items: Seq<Seq<char>>)
    ensures
        avoids(enc_str_list(items), ':'),
{
    lemma_enc_list_shape(items);
    assert forall|i: int| 0 <= i < enc_str_list(items).len() implies enc_str_list(items)[i]
        != ':' by {
        if i > 0 {
            assert(enc_str_list(items)[i] == enc_str_list_items(items)[i - 1]);
            assert(is_digit(enc_str_list_items(items)[i - 1]) || enc_str_list_items(items)[i - 1]
                == '.' || enc_str_list_items(items)[i - 1] == '/');
        }
    }
}

/// Joining colon-free parts with colons is injective for part lists of
/// equal length.
proof fn lemma_join_colon_injective(a: Seq<Seq<char>>, b: Seq<Seq<char>>)
    requires
        a.len() == b.len(),
        forall|i: int| 0 <= i < a.len() ==> avoids(#[trigger] a[i], ':'),
        forall|i: int| 0 <= i < b.len() ==> avoids(#[trigger] b[i], ':'),
        join_colon(a) == join_colon(b),
    ensures
        a =~~= b,
    decreases a.len(),
{
    if a.len() <= 1 {
    } else {
        let ua = join_colon(a.drop_last()) + seq![':'];
        let ub = join_colon(b.drop_last()) + seq![':'];
        assert(join_colon(a) =~= ua + a.last());
        assert(join_colon(b) =~= ub + b.last());
        lemma_split_final_token(ua, a.last(), ub, b.last(), ':');
        assert(join_colon(a.drop_last()).len() == join_colon(b.drop_last()).len());
        assert forall|i: int| 0 <= i < join_colon(a.drop_last()).len() implies join_colon(
            a.drop_last(),
        )[i] == join_colon(b.drop_last())[i] by {
            assert(ua[i] == join_colon(a.drop_last())[i]);
            assert(ub[i] == join_colon(b.drop_last())[i]);
        }
        assert(join_colon(a.drop_last()) =~= join_colon(b.drop_last()));
        lemma_join_colon_injective(a.drop_last(), b.drop_last());
        assert(a =~~= a.drop_last().push(a.last()));
        assert(b =~~= b.drop_last().push(b.last()));
    }
}

/// Two requests are cache-equivalent: every field holds exactly the same
/// value.
pub open spec fn params_equivalent(a: UnifiedSearchParams, b: UnifiedSearchParams) -> bool {
    &&& a.page == b.page
    &&& a.limit == b.limit
    &&& opt_view(a.search_type) == opt_view(b.search_type)
    &&& a.main_parent_id == b.main_parent_id
    &&& a.parent_left_id == b.parent_left_id
    &&& a.parent_right_id == b.parent_right_id
    &&& a.parent_rank == b.parent_rank
    &&& a.parent_rarity == b.parent_rarity
    &&& str_views(a.blue_sparks@) == str_views(b.blue_sparks@)
    &&& str_views(a.pink_sparks@) == str_views(b.pink_sparks@)
    &&& str_views(a.green_sparks@) == str_views(b.green_sparks@)
    &&& str_views(a.white_sparks@) == str_views(b.white_sparks@)
    &&& a.blue_sparks_9star == b.blue_sparks_9star
    &&& a.pink_sparks_9star == b.pink_sparks_9star
    &&& a.green_sparks_9star == b.green_sparks_9star
    &&& str_views(a.main_parent_blue_sparks@) == str_views(b.main_parent_blue_sparks@)
    &&& str_views(a.main_parent_pink_sparks@) == str_views(b.main_parent_pink_sparks@)
    &&& str_views(a.main_parent_green_sparks@) == str_views(b.main_parent_green_sparks@)
    &&& str_views(a.main_parent_white_sparks@) == str_views(b.main_parent_white_sparks@)
    &&& a.min_win_count == b.min_win_count
    &&& a.min_white_count == b.min_white_count
    &&& a.min_main_blue_factors == b.min_main_blue_factors
    &&& a.min_main_pink_factors == b.min_main_pink_factors
    &&& a.min_main_green_factors == b.min_main_green_factors
    &&& str_views(a.main_white_factors@) == str_views(b.main_white_factors@)
    &&& a.min_main_white_count == b.min_main_white_count
    &&& str_views(a.optional_white_sparks@) == str_views(b.optional_white_sparks@)
    &&& str_views(a.optional_main_white_factors@) == str_views(b.optional_main_white_factors@)
    &&& a.support_card_id == b.support_card_id
    &&& a.min_limit_break == b.min_limit_break
    &&& a.max_limit_break == b.max_limit_break
    &&& a.min_experience == b.min_experience
    &&& opt_view(a.trainer_id) == opt_view(b.trainer_id)
    &&& opt_view(a.trainer_name) == opt_view(b.trainer_name)
    &&& a.max_follower_num == b.max_follower_num
    &&& opt_view(a.sort_by) == opt_view(b.sort_by)
    &&& opt_view(a.sort_order) == opt_view(b.sort_order)
    &&& a.player_chara_id == b.player_chara_id
    &&& a.player_chara_id_2 == b.player_chara_id_2
    &&& a.desired_main_chara_id == b.desired_main_chara_id
}

/// Every part of the search key is colon-free.
proof fn lemma_search_parts_colon_free(p: UnifiedSearchParams)
    ensures
        forall|i: int|
            0 <= i < search_key_parts(p).len() ==> avoids(#[trigger] search_key_parts(p)[i], ':'),
{
    reveal_strlit("search");
    reveal_strlit("v1");
    lemma_enc_opt_int_colon_free(opt_int64(p.page));
    lemma_enc_opt_int_colon_free(opt_int64(p.limit));
    lemma_enc_opt_str_colon_free(opt_view(p.search_type));
    lemma_enc_opt_int_colon_free(opt_int32(p.main_parent_id));
    lemma_enc_opt_int_colon_free(opt_int32(p.parent_left_id));
    lemma_enc_opt_int_colon_free(opt_int32(p.parent_right_id));
    lemma_enc_opt_int_colon_free(opt_int32(p.parent_rank));
    lemma_enc_opt_int_colon_free(opt_int32(p.parent_rarity));
    lemma_enc_str_list_colon_free(str_views(p.blue_sparks@));
    lemma_enc_str_list_colon_free(str_views(p.pink_sparks@));
    lemma_enc_str_list_colon_free(str_views(p.green_sparks@));
    lemma_enc_str_list_colon_free(str_views(p.white_sparks@));
    lemma_enc_opt_bool_colon_free(p.blue_sparks_9star);
    lemma_enc_opt_bool_colon_free(p.pink_sparks_9star);
    lemma_enc_opt_bool_colon_free(p.green_sparks_9star);
    lemma_enc_str_list_colon_free(str_views(p.main_parent_blue_sparks@));
    lemma_enc_str_list_colon_free(str_views(p.main_parent_pink_sparks@));
    lemma_enc_str_list_colon_free(str_views(p.main_parent_green_sparks@));
    lemma_enc_str_list_colon_free(str_views(p.main_parent_white_sparks@));
    lemma_enc_opt_int_colon_free(opt_int32(p.min_win_count));
    lemma_enc_opt_int_colon_free(opt_int32(p.min_white_count));
    lemma_enc_opt_int_colon_free(opt_int32(p.min_main_blue_factors));
    lemma_enc_opt_int_colon_free(opt_int32(p.min_main_pink_factors));
    lemma_enc_opt_int_colon_free(opt_int32(p.min_main_green_factors));
    lemma_enc_str_list_colon_free(str_views(p.main_white_factors@));
    lemma_enc_opt_int_colon_free(opt_int32(p.min_main_white_count));
    lemma_enc_str_list_colon_free(str_views(p.optional_white_sparks@));
    lemma_enc_str_list_colon_free(str_views(p.optional_main_white_factors@));
    lemma_enc_opt_int_colon_free(opt_int32(p.support_card_id));
    lemma_enc_opt_int_colon_free(opt_int32(p.min_limit_break));
    lemma_enc_opt_int_colon_free(opt_int32(p.max_limit_break));
    lemma_enc_opt_int_colon_free(opt_int32(p.min_experience));
    lemma_enc_opt_str_colon_free(opt_view(p.trainer_id));
    lemma_enc_opt_str_colon_free(opt_view(p.trainer_name));
    lemma_enc_opt_int_colon_free(opt_int32(p.max_follower_num));
    lemma_enc_opt_str_colon_free(opt_view(p.sort_by));
    lemma_enc_opt_str_colon_free(opt_view(p.sort_order));
    lemma_enc_opt_int_colon_free(opt_int32(p.player_chara_id));
    lemma_enc_opt_int_colon_free(opt_int32(p.player_chara_id_2));
    lemma_enc_opt_int_colon_free(opt_int32(p.desired_main_chara_id));
}

/// Law: the search cache key is a canonical serialization — two requests
/// get the same key exactly when every field of the two matches.  In
/// particular the key is deterministic, and changing any single field
/// changes it.
pub proof fn lemma_search_key_canonical(a: UnifiedSearchParams, b: UnifiedSearchParams)
    ensures
        spec_search_key(a) == spec_search_key(b) <==> params_equivalent(a, b),
{
    if params_equivalent(a, b) {
        assert(search_key_parts(a) =~~= search_key_parts(b));
        assert(spec_search_key(a) == spec_search_key(b));
    }
    if spec_search_key(a) == spec_search_key(b) {
        let pa = search_key_parts(a);
        let pb = search_key_parts(b);
        lemma_search_parts_colon_free(a);
        lemma_search_parts_colon_free(b);
        lemma_join_colon_injective(pa, pb);
        lemma_enc_opt_int_injective(opt_int64(a.page), opt_int64(b.page));
        lemma_enc_opt_int_injective(opt_int64(a.limit), opt_int64(b.limit));
        lemma_enc_opt_str_injective(opt_view(a.search_type), opt_view(b.search_type));
        lemma_enc_opt_int_injective(opt_int32(a.main_parent_id), opt_int32(b.main_parent_id));
        lemma_enc_opt_int_injective(opt_int32(a.parent_left_id), opt_int32(b.parent_left_id));
        lemma_enc_opt_int_injective(opt_int32(a.parent_right_id), opt_int32(b.parent_right_id));
        lemma_enc_opt_int_injective(opt_int32(a.parent_rank), opt_int32(b.parent_rank));
        lemma_enc_opt_int_injective(opt_int32(a.parent_rarity), opt_int32(b.parent_rarity));
        lemma_enc_str_list_injective(str_views(a.blue_sparks@), str_views(b.blue_sparks@));
        lemma_enc_str_list_injective(str_views(a.pink_sparks@), str_views(b.pink_sparks@));
        lemma_enc_str_list_injective(str_views(a.green_sparks@), str_views(b.green_sparks@));
        lemma_enc_str_list_injective(str_views(a.white_sparks@), str_views(b.white_sparks@));
        lemma_enc_opt_bool_injective(a.blue_sparks_9star, b.blue_sparks_9star);
        lemma_enc_opt_bool_injective(a.pink_sparks_9star, b.pink_sparks_9star);
        lemma_enc_opt_bool_injective(a.green_sparks_9star, b.green_sparks_9star);
        lemma_enc_str_list_injective(
            str_views(a.main_parent_blue_sparks@),
            str_views(b.main_parent_blue_sparks@),
        );
        lemma_enc_str_list_injective(
            str_views(a.main_parent_pink_sparks@),
            str_views(b.main_parent_pink_sparks@),
        );
        lemma_enc_str_list_injective(
            str_views(a.main_parent_green_sparks@),
            str_views(b.main_parent_green_sparks@),
        );
        lemma_enc_str_list_injective(
            str_views(a.main_parent_white_sparks@),
            str_views(b.main_parent_white_sparks@),
        );
        lemma_enc_opt_int_injective(opt_int32(a.min_win_count), opt_int32(b.min_win_count));
        lemma_enc_opt_int_injective(opt_int32(a.min_white_count), opt_int32(b.min_white_count));
        lemma_enc_opt_int_injective(
            opt_int32(a.min_main_blue_factors),
            opt_int32(b.min_main_blue_factors),
        );
        lemma_enc_opt_int_injective(
            opt_int32(a.min_main_pink_factors),
            opt_int32(b.min_main_pink_factors),
        );
        lemma_enc_opt_int_injective(
            opt_int32(a.min_main_green_factors),
            opt_int32(b.min_main_green_factors),
        );
        lemma_enc_str_list_injective(
            str_views(a.main_white_factors@),
            str_views(b.main_white_factors@),
        );
        lemma_enc_opt_int_injective(
            opt_int32(a.min_main_white_count),
            opt_int32(b.min_main_white_count),
        );
        lemma_enc_str_list_injective(
            str_views(a.optional_white_sparks@),
            str_views(b.optional_white_sparks@),
        );
        lemma_enc_str_list_injective(
            str_views(a.optional_main_white_factors@),
            str_views(b.optional_main_white_factors@),
        );
        lemma_enc_opt_int_injective(opt_int32(a.support_card_id), opt_int32(b.support_card_id));
        lemma_enc_opt_int_injective(opt_int32(a.min_limit_break), opt_int32(b.min_limit_break));
        lemma_enc_opt_int_injective(opt_int32(a.max_limit_break), opt_int32(b.max_limit_break));
        lemma_enc_opt_int_injective(opt_int32(a.min_experience), opt_int32(b.min_experience));
        lemma_enc_opt_str_injective(opt_view(a.trainer_id), opt_view(b.trainer_id));
        lemma_enc_opt_str_injective(opt_view(a.trainer_name), opt_view(b.trainer_name));
        lemma_enc_opt_int_injective(opt_int32(a.max_follower_num), opt_int32(b.max_follower_num));
        lemma_enc_opt_str_injective(opt_view(a.sort_by), opt_view(b.sort_by));
        lemma_enc_opt_str_injective(opt_view(a.sort_order), opt_view(b.sort_order));
        lemma_enc_opt_int_injective(opt_int32(a.player_chara_id), opt_int32(b.player_chara_id));
        lemma_enc_opt_int_injective(
            opt_int32(a.player_chara_id_2),
            opt_int32(b.player_chara_id_2),
        );
        lemma_enc_opt_int_injective(
            opt_int32(a.desired_main_chara_id),
            opt_int32(b.desired_main_chara_id),
        );
    }
}

} // verus!
