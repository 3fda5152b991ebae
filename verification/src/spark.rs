//! Spark-filter algebra: pure translation of user-supplied spark specs
//! (explicit `factor*10+level` values mixed with bare wildcard levels) into
//! boolean predicates over integer-array columns, with the wildcard, range
//! and multi-group overlap-counting rules of the search endpoint.
//!
//! Predicates are built as values of a small condition language; their
//! meaning over a record's array is given by spec functions and by the
//! executable evaluators, and the SQL renderer turns them into bound-
//! parameter fragments.
use vstd::prelude::*;

verus! {

/// Highest factor identifier a wildcard level expands over.
pub const MAX_FACTOR_ID: i32 = 100;

/// An atomic predicate over an integer-array column.
#[derive(Debug, Clone)]
pub enum ArrayAtom {
    /// The column shares at least one element with the given values
    /// (`column && ARRAY[..]`).
    Overlap(Vec<i32>),
    /// The column has at least `n` distinct elements among the given values
    /// (an intersection-cardinality test).
    IntersectAtLeast(Vec<i32>, usize),
    /// The column holds at least `n` elements in total
    /// (`cardinality(column) >= n`).
    CardAtLeast(usize),
}

/// A disjunction of atoms over one array column.
#[derive(Debug, Clone)]
pub struct ArrayClause {
    pub atoms: Vec<ArrayAtom>,
}

/// A conjunction of clauses over one array column.
#[derive(Debug, Clone)]
pub struct ArrayCond {
    pub clauses: Vec<ArrayClause>,
}

/// The set of distinct values shared by an array and a value list.
pub open spec fn overlap_set(arr: Seq<i32>, vs: Seq<i32>) -> Set<i32> {
    arr.to_set().intersect(vs.to_set())
}

/// Whether an atomic predicate holds of a record array.
pub open spec fn atom_holds(a: ArrayAtom, arr: Seq<i32>) -> bool {
    match a {
        ArrayAtom::Overlap(vs) => exists|i: int| 0 <= i < arr.len() && vs@.contains(#[trigger] arr[i]),
        ArrayAtom::IntersectAtLeast(vs, n) => overlap_set(arr, vs@).len() >= n,
        ArrayAtom::CardAtLeast(n) => arr.len() >= n,
    }
}

/// Whether a clause (a disjunction of atoms) holds of a record array.
pub open spec fn clause_holds(cl: ArrayClause, arr: Seq<i32>) -> bool {
    exists|i: int| 0 <= i < cl.atoms@.len() && atom_holds(#[trigger] cl.atoms@[i], arr)
}

/// Whether a condition (a conjunction of clauses) holds of a record array.
pub open spec fn cond_holds(c: ArrayCond, arr: Seq<i32>) -> bool {
    forall|i: int| 0 <= i < c.clauses@.len() ==> clause_holds(#[trigger] c.clauses@[i], arr)
}

/// A strictly increasing sequence: the canonical form of a finite set.
pub open spec fn strictly_sorted(s: Seq<i32>) -> bool {
    forall|i: int, j: int| 0 <= i < j < s.len() ==> s[i] < s[j]
}

/// Two strictly sorted sequences over the same set are the same sequence.
pub proof fn lemma_canonical_unique(a: Seq<i32>, b: Seq<i32>)
    requires
        strictly_sorted(a),
        strictly_sorted(b),
        a.to_set() == b.to_set(),
    ensures
        a == b,
    decreases a.len(),
{
    if a.len() == 0 {
        if b.len() > 0 {
            assert(b.to_set().contains(b[0]));
            assert(a.to_set().contains(b[0]));
        }
        assert(a =~= b);
    } else if b.len() == 0 {
        assert(a.to_set().contains(a[0]));
        assert(b.to_set().contains(a[0]));
    } else {
        // The least element of both sets is the first element of both.
        assert(a.to_set().contains(a[0]));
        assert(b.to_set().contains(b[0]));
        assert(a.to_set().contains(b[0]));
        assert(b.to_set().contains(a[0]));
        let ia = choose|i: int| 0 <= i < a.len() && a[i] == b[0];
        let ib = choose|i: int| 0 <= i < b.len() && b[i] == a[0];
        assert(a[ia] == b[0] && b[ib] == a[0]);
        assert(a[0] == b[0]);
        assert(a.drop_first().to_set() =~= b.drop_first().to_set()) by {
            assert forall|v: i32| a.drop_first().to_set().contains(v) implies b.drop_first().to_set().contains(
                v,
            ) by {
                let i = choose|i: int| 0 <= i < a.drop_first().len() && a.drop_first()[i] == v;
                assert(a[i + 1] == v);
                assert(a.to_set().contains(v));
                assert(b.to_set().contains(v));
                let j = choose|j: int| 0 <= j < b.len() && b[j] == v;
                assert(v > a[0]);
                assert(j > 0);
                assert(b.drop_first()[j - 1] == v);
            }
            assert forall|v: i32| b.drop_first().to_set().contains(v) implies a.drop_first().to_set().contains(
                v,
            ) by {
                let i = choose|i: int| 0 <= i < b.drop_first().len() && b.drop_first()[i] == v;
                assert(b[i + 1] == v);
                assert(b.to_set().contains(v));
                assert(a.to_set().contains(v));
                let j = choose|j: int| 0 <= j < a.len() && a[j] == v;
                assert(v > b[0]);
                assert(j > 0);
                assert(a.drop_first()[j - 1] == v);
            }
        }
        assert(strictly_sorted(a.drop_first()));
        assert(strictly_sorted(b.drop_first()));
        lemma_canonical_unique(a.drop_first(), b.drop_first());
        assert(a.len() == b.len());
        assert forall|i: int| 0 <= i < a.len() implies a[i] == b[i] by {
            if i > 0 {
                assert(a.drop_first()[i - 1] == b.drop_first()[i - 1]);
            }
        }
        assert(a =~= b);
    }
}

/// All values that expand a wildcard `level`: the level for every factor
/// identifier from 1 to 100.
pub fn expand_wildcard(level: i32) -> (r: Vec<i32>)
    requires
        level < 10,
    ensures
        r@ == Seq::new(100, |i: int| ((i + 1) * 10 + level) as i32),
{
    let mut r: Vec<i32> = Vec::new();
    let mut f: i32 = 1;
    while f <= MAX_FACTOR_ID
        invariant
            1 <= f <= 101,
            level < 10,
            r@ =~= Seq::new((f - 1) as nat, |i: int| ((i + 1) * 10 + level) as i32),
        decreases 101 - f,
    {
        r.push(f * 10 + level);
        proof {
            assert(r@ =~= Seq::new(f as nat, |i: int| ((i + 1) * 10 + level) as i32));
        }
        f += 1;
    }
    proof {
        assert(r@ =~= Seq::new(100, |i: int| ((i + 1) * 10 + level) as i32));
    }
    r
}

/// Insert `v` into a strictly sorted vector, keeping it strictly sorted;
/// a value already present is left alone.
fn insert_sorted_unique(out: &mut Vec<i32>, v: i32)
    requires
        strictly_sorted(old(out)@),
    ensures
        strictly_sorted(final(out)@),
        final(out)@.to_set() =~= old(out)@.to_set().insert(v),
{
    let mut i: usize = 0;
    while i < out.len() && out[i] < v
        invariant
            i <= out@.len(),
            strictly_sorted(out@),
            out@ == old(out)@,
            forall|j: int| 0 <= j < i ==> out@[j] < v,
        decreases out@.len() - i,
    {
        i += 1;
    }
    if i < out.len() && out[i] == v {
        proof {
            assert(out@.to_set().contains(v));
            assert(out@.to_set() =~= old(out)@.to_set().insert(v));
        }
        return ;
    }
    let ghost pre = out@;
    out.insert(i, v);
    proof {
        assert(out@ =~= pre.take(i as int).push(v) + pre.skip(i as int));
        assert forall|p: int, q: int| 0 <= p < q < out@.len() implies out@[p] < out@[q] by {
            if p < i && q == i {
                assert(out@[p] == pre[p]);
            } else if p == i && q > i {
                assert(out@[q] == pre[q - 1]);
                assert(pre[q - 1] >= pre[i as int] || q - 1 == i);
                if i < pre.len() {
                    assert(pre[i as int] != v);
                    assert(pre[i as int] >= v);
                    assert(pre[i as int] > v || pre[i as int] == v);
                }
                assert(out@[q] > v);
            } else if p < i && q > i {
                assert(out@[p] == pre[p] && out@[q] == pre[q - 1]);
            } else if q < i {
                assert(out@[p] == pre[p] && out@[q] == pre[q]);
            } else if p > i {
                assert(out@[p] == pre[p - 1] && out@[q] == pre[q - 1]);
            }
        }
        assert forall|x: i32| out@.to_set().contains(x) implies pre.to_set().insert(v).contains(x) by {
            let j = choose|j: int| 0 <= j < out@.len() && out@[j] == x;
            if j < i {
                assert(pre[j] == x);
            } else if j > i {
                assert(pre[j - 1] == x);
            }
        }
        assert forall|x: i32| pre.to_set().insert(v).contains(x) implies out@.to_set().contains(x) by {
            if x == v {
                assert(out@[i as int] == v);
            } else {
                let j = choose|j: int| 0 <= j < pre.len() && pre[j] == x;
                if j < i {
                    assert(out@[j] == x);
                } else {
                    assert(out@[j + 1] == x);
                }
            }
        }
        assert(out@.to_set() =~= pre.to_set().insert(v));
    }
}

/// Whether `v` is `f * 10 + l` for some factor identifier `f` in 1..=k.
pub open spec fn wild_member_upto(l: i32, v: i32, k: int) -> bool {
    let f = (v - l) / 10;
    1 <= f <= k && v == f * 10 + l
}

/// Whether `v` is one of the hundred expansions of wildcard level `l`.
pub open spec fn wild_member(l: i32, v: i32) -> bool {
    wild_member_upto(l, v, 100)
}

/// The set of values a spark group stands for after wildcard expansion:
/// its explicit values, plus every `factor*10+level` for each bare wildcard
/// level it holds.
pub open spec fn expanded_set(sparks: Seq<i32>) -> Set<i32> {
    Set::new(
        |v: i32|
            (v >= 10 && sparks.contains(v)) || exists|i: int|
                0 <= i < sparks.len() && #[trigger] sparks[i] < 10 && wild_member(sparks[i], v),
    )
}

/// Expand a spark group into the canonical (strictly sorted, duplicate-free)
/// vector of all values it stands for.
pub fn expand_spark_group(sparks: &Vec<i32>) -> (r: Vec<i32>)
    ensures
        strictly_sorted(r@),
        r@.to_set() =~= expanded_set(sparks@),
{
    let mut out: Vec<i32> = Vec::new();
    let mut i: usize = 0;
    while i < sparks.len()
        invariant
            i <= sparks@.len(),
            strictly_sorted(out@),
            out@.to_set() =~= expanded_set(sparks@.take(i as int)),
        decreases sparks@.len() - i,
    {
        let ghost pre_set = out@.to_set();
        let v = sparks[i];
        if v >= 10 {
            insert_sorted_unique(&mut out, v);
        } else {
            let expanded = expand_wildcard(v);
            let mut k: usize = 0;
            while k < expanded.len()
                invariant
                    k <= expanded@.len(),
                    v < 10,
                    expanded@ == Seq::new(100, |e: int| ((e + 1) * 10 + v) as i32),
                    strictly_sorted(out@),
                    out@.to_set() =~= pre_set.union(
                        Set::new(|x: i32| wild_member_upto(v, x, k as int)),
                    ),
                decreases expanded@.len() - k,
            {
                let x = expanded[k];
                insert_sorted_unique(&mut out, x);
                proof {
                    assert(x as int == (k as int + 1) * 10 + v as int);
                    assert(wild_member_upto(v, x, k as int + 1)) by {
                        assert((x as int - v as int) / 10 == k as int + 1);
                    }
                    assert forall|y: i32|
                        wild_member_upto(v, y, k as int + 1) && y != x implies wild_member_upto(
                        v,
                        y,
                        k as int,
                    ) by {}
                    assert(out@.to_set() =~= pre_set.union(
                        Set::new(|y: i32| wild_member_upto(v, y, k as int + 1)),
                    ));
                }
                k += 1;
            }
        }
        proof {
            let tk = sparks@.take(i as int);
            let tk1 = sparks@.take(i as int + 1);
            assert(tk1 =~= tk.push(sparks@[i as int]));
            assert forall|x: i32| out@.to_set().contains(x) implies expanded_set(tk1).contains(x) by {
                if !pre_set.contains(x) {
                    if sparks@[i as int] >= 10 {
                        assert(x == sparks@[i as int]);
                        assert(tk1.contains(x)) by {
                            assert(tk1[i as int] == x);
                        }
                    } else {
                        assert(wild_member(sparks@[i as int], x));
                        assert(tk1[i as int] < 10);
                    }
                } else {
                    assert(expanded_set(tk).contains(x));
                    if x >= 10 && tk.contains(x) {
                        let j = choose|j: int| 0 <= j < tk.len() && tk[j] == x;
                        assert(tk1[j] == x);
                    } else {
                        let j = choose|j: int|
                            0 <= j < tk.len() && #[trigger] tk[j] < 10 && wild_member(tk[j], x);
                        assert(tk1[j] < 10 && wild_member(tk1[j], x));
                    }
                }
            }
            assert forall|x: i32| expanded_set(tk1).contains(x) implies out@.to_set().contains(x) by {
                if x >= 10 && tk1.contains(x) {
                    let j = choose|j: int| 0 <= j < tk1.len() && tk1[j] == x;
                    if j < i {
                        assert(tk[j] == x);
                        assert(expanded_set(tk).contains(x));
                    }
                } else {
                    let j = choose|j: int|
                        0 <= j < tk1.len() && #[trigger] tk1[j] < 10 && wild_member(tk1[j], x);
                    if j < i {
                        assert(tk[j] < 10 && wild_member(tk[j], x));
                        assert(expanded_set(tk).contains(x));
                    }
                }
            }
            assert(out@.to_set() =~= expanded_set(tk1));
        }
        i += 1;
    }
    proof {
        assert(sparks@.take(sparks@.len() as int) =~= sparks@);
    }
    out
}

} // verus!

verus! {

use crate::text::{spec_parse_i32, spec_split, spec_trim, parse_i32_chars, split_commas, trim_chars};

/// The values a list of comma segments parses to: each segment is trimmed
/// and read as a strict decimal `i32`; segments that do not parse are
/// dropped.
pub open spec fn group_values(segs: Seq<Seq<char>>) -> Seq<i32>
    decreases segs.len(),
{
    if segs.len() == 0 {
        Seq::<i32>::empty()
    } else {
        let front = group_values(segs.drop_last());
        match spec_parse_i32(spec_trim(segs.last())) {
            Some(v) => front.push(v),
            None => front,
        }
    }
}

/// The spark values one group parameter stands for: its comma-separated
/// entries, trimmed and parsed, unparseable entries dropped.
pub open spec fn spec_group(s: Seq<char>) -> Seq<i32> {
    group_values(spec_split(s))
}

/// The parsed spark groups of a list of group parameters: each parameter
/// is one group; groups that parse to no values are dropped.
pub open spec fn spec_groups(gs: Seq<Seq<char>>) -> Seq<Seq<i32>>
    decreases gs.len(),
{
    if gs.len() == 0 {
        Seq::<Seq<i32>>::empty()
    } else {
        let front = spec_groups(gs.drop_last());
        let vals = spec_group(gs.last());
        if vals.len() > 0 {
            front.push(vals)
        } else {
            front
        }
    }
}

/// The views of a list of strings.
pub open spec fn views_of_strings(gs: Seq<String>) -> Seq<Seq<char>> {
    gs.map_values(|g: String| g@)
}

/// Parse one group parameter into its spark values.
#[verifier::loop_isolation(false)]
pub fn parse_spark_group(s: &str) -> (r: Vec<i32>)
    ensures
        r@ == spec_group(s@),
{
    let segs = split_commas(s);
    let ghost ss = spec_split(s@);
    let mut r: Vec<i32> = Vec::new();
    let mut i: usize = 0;
    while i < segs.len()
        invariant
            i <= segs@.len(),
            r@ =~= group_values(ss.take(i as int)),
        decreases segs@.len() - i,
    {
        let t = trim_chars(&segs[i]);
        proof {
            assert(ss.take(i as int + 1).drop_last() =~= ss.take(i as int));
            assert(ss.take(i as int + 1).last() == ss[i as int]);
            assert(t@ == spec_trim(ss[i as int]));
        }
        match parse_i32_chars(&t) {
            Some(v) => {
                r.push(v);
            },
            None => {},
        }
        i += 1;
    }
    proof {
        assert(ss.take(ss.len() as int) =~= ss);
    }
    r
}

/// Parse repeatable group parameters into spark groups, dropping groups
/// that hold no parseable value.
#[verifier::loop_isolation(false)]
pub fn process_spark_groups(groups: &Vec<String>) -> (r: Vec<Vec<i32>>)
    ensures
        r@.len() == spec_groups(views_of_strings(groups@)).len(),
        forall|m: int|
            0 <= m < r@.len() ==> #[trigger] r@[m]@ == spec_groups(views_of_strings(groups@))[m],
{
    let ghost gs = views_of_strings(groups@);
    let mut r: Vec<Vec<i32>> = Vec::new();
    let mut i: usize = 0;
    while i < groups.len()
        invariant
            i <= groups@.len(),
            r@.len() == spec_groups(gs.take(i as int)).len(),
            forall|m: int|
                0 <= m < r@.len() ==> #[trigger] r@[m]@ == spec_groups(gs.take(i as int))[m],
        decreases groups@.len() - i,
    {
        let vals = parse_spark_group(groups[i].as_str());
        proof {
            assert(gs.take(i as int + 1).drop_last() =~= gs.take(i as int));
            assert(gs.take(i as int + 1).last() == gs[i as int]);
            assert(gs[i as int] == groups@[i as int]@);
        }
        if vals.len() > 0 {
            r.push(vals);
        }
        i += 1;
    }
    proof {
        assert(gs.take(gs.len() as int) =~= gs);
    }
    r
}

/// Whether `vs` holds `x`.
pub fn vec_contains(vs: &Vec<i32>, x: i32) -> (r: bool)
    ensures
        r == vs@.contains(x),
{
    let mut i: usize = 0;
    while i < vs.len()
        invariant
            i <= vs@.len(),
            forall|j: int| 0 <= j < i ==> vs@[j] != x,
        decreases vs@.len() - i,
    {
        if vs[i] == x {
            return true;
        }
        i += 1;
    }
    false
}

/// Evaluate an atomic predicate against a record array.
#[verifier::loop_isolation(false)]
pub fn eval_atom(a: &ArrayAtom, arr: &Vec<i32>) -> (r: bool)
    ensures
        r == atom_holds(*a, arr@),
{
    match a {
        ArrayAtom::Overlap(vs) => {
            let mut i: usize = 0;
            while i < arr.len()
                invariant
                    i <= arr@.len(),
                    forall|j: int| 0 <= j < i ==> !vs@.contains(#[trigger] arr@[j]),
                decreases arr@.len() - i,
            {
                if vec_contains(vs, arr[i]) {
                    return true;
                }
                i += 1;
            }
            false
        },
        ArrayAtom::IntersectAtLeast(vs, n) => {
            proof {
                assert(arr@.take(0).to_set() =~= Set::<i32>::empty());
                assert(overlap_set(arr@.take(0), vs@) =~= Set::<i32>::empty());
            }
            let mut count: usize = 0;
            let mut i: usize = 0;
            while i < arr.len()
                invariant
                    i <= arr@.len(),
                    count <= i,
                    count == overlap_set(arr@.take(i as int), vs@).len(),
                    overlap_set(arr@.take(i as int), vs@).finite(),
                decreases arr@.len() - i,
            {
                let x = arr[i];
                let is_new = vec_contains(vs, x) && !vec_contains_prefix(arr, i, x);
                proof {
                    let pre = overlap_set(arr@.take(i as int), vs@);
                    let post = overlap_set(arr@.take(i as int + 1), vs@);
                    assert(arr@.take(i as int + 1) =~= arr@.take(i as int).push(x));
                    if vs@.contains(x) && !arr@.take(i as int).contains(x) {
                        assert(arr@.take(i as int).to_set().contains(x) == arr@.take(
                            i as int,
                        ).contains(x));
                        assert(!pre.contains(x));
                        assert forall|y: i32| post.contains(y) implies pre.insert(x).contains(y) by {
                            assert(arr@.take(i as int + 1).contains(y));
                            let j = choose|j: int|
                                0 <= j < i + 1 && #[trigger] arr@.take(i as int + 1)[j] == y;
                            if j < i {
                                assert(arr@.take(i as int)[j] == y);
                            }
                        }
                        assert forall|y: i32| pre.insert(x).contains(y) implies post.contains(y) by {
                            if y == x {
                                assert(arr@.take(i as int + 1)[i as int] == x);
                            } else {
                                assert(arr@.take(i as int).contains(y));
                                let j = choose|j: int| 0 <= j < i && arr@.take(i as int)[j] == y;
                                assert(arr@.take(i as int + 1)[j] == y);
                            }
                        }
                        assert(post =~= pre.insert(x));
                    } else {
                        assert forall|y: i32| post.contains(y) implies pre.contains(y) by {
                            assert(arr@.take(i as int + 1).contains(y));
                            let j = choose|j: int|
                                0 <= j < i + 1 && #[trigger] arr@.take(i as int + 1)[j] == y;
                            if j < i {
                                assert(arr@.take(i as int)[j] == y);
                            } else {
                                assert(y == x);
                                assert(vs@.contains(x));
                                assert(arr@.take(i as int).contains(x));
                                let m = choose|m: int| 0 <= m < i && arr@.take(i as int)[m] == x;
                                assert(arr@.take(i as int)[m] == y);
                            }
                        }
                        assert forall|y: i32| pre.contains(y) implies post.contains(y) by {
                            assert(arr@.take(i as int).contains(y));
                            let j = choose|j: int| 0 <= j < i && arr@.take(i as int)[j] == y;
                            assert(arr@.take(i as int + 1)[j] == y);
                        }
                        assert(post =~= pre);
                    }
                }
                if is_new {
                    count += 1;
                }
                i += 1;
            }
            proof {
                assert(arr@.take(arr@.len() as int) =~= arr@);
            }
            count >= *n
        },
        ArrayAtom::CardAtLeast(n) => arr.len() >= *n,
    }
}

/// Whether `arr[..upto]` holds `x`.
fn vec_contains_prefix(arr: &Vec<i32>, upto: usize, x: i32) -> (r: bool)
    requires
        upto <= arr@.len(),
    ensures
        r == arr@.take(upto as int).contains(x),
{
    let mut i: usize = 0;
    while i < upto
        invariant
            i <= upto <= arr@.len(),
            forall|j: int| 0 <= j < i ==> arr@[j] != x,
        decreases upto - i,
    {
        if arr[i] == x {
            proof {
                assert(arr@.take(upto as int)[i as int] == x);
            }
            return true;
        }
        i += 1;
    }
    proof {
        assert forall|j: int| 0 <= j < upto implies arr@.take(upto as int)[j] != x by {
            assert(arr@[j] != x);
        }
    }
    false
}

/// Evaluate a clause (a disjunction of atoms) against a record array.
pub fn eval_clause(cl: &ArrayClause, arr: &Vec<i32>) -> (r: bool)
    ensures
        r == clause_holds(*cl, arr@),
{
    let mut i: usize = 0;
    while i < cl.atoms.len()
        invariant
            i <= cl.atoms@.len(),
            forall|j: int| 0 <= j < i ==> !atom_holds(#[trigger] cl.atoms@[j], arr@),
        decreases cl.atoms@.len() - i,
    {
        if eval_atom(&cl.atoms[i], arr) {
            return true;
        }
        i += 1;
    }
    false
}

/// Evaluate a condition (a conjunction of clauses) against a record array.
pub fn eval_cond(c: &ArrayCond, arr: &Vec<i32>) -> (r: bool)
    ensures
        r == cond_holds(*c, arr@),
{
    let mut i: usize = 0;
    while i < c.clauses.len()
        invariant
            i <= c.clauses@.len(),
            forall|j: int| 0 <= j < i ==> clause_holds(#[trigger] c.clauses@[j], arr@),
        decreases c.clauses@.len() - i,
    {
        if !eval_clause(&c.clauses[i], arr) {
            return false;
        }
        i += 1;
    }
    true
}

} // verus!

verus! {

/// The explicit values of a spark group (those of the form
/// `factor*10+level`), in input order.
pub open spec fn spec_specifics(sparks: Seq<i32>) -> Seq<i32> {
    sparks.filter(|v: i32| v >= 10)
}

/// The bare wildcard levels of a spark group, in input order.
pub open spec fn spec_wildcards(sparks: Seq<i32>) -> Seq<i32> {
    sparks.filter(|v: i32| v < 10)
}

/// The wildcard overlap list of a single group: for every factor identifier
/// from 1 to 100, each requested level, factor-major, in input order.
pub open spec fn wildcard_overlap_values(levels: Seq<i32>) -> Seq<i32> {
    Seq::new(
        100 * levels.len(),
        |i: int| (((i / levels.len() as int) + 1) * 10 + levels[i % levels.len() as int]) as i32,
    )
}

/// The atom is an overlap test against exactly these values.
pub open spec fn is_overlap_with(a: ArrayAtom, vs: Seq<i32>) -> bool {
    a is Overlap && a->Overlap_0@ == vs
}

/// The atom is an overlap test against the canonical (strictly sorted)
/// listing of this set.
pub open spec fn is_overlap_canonical(a: ArrayAtom, e: Set<i32>) -> bool {
    a is Overlap && strictly_sorted(a->Overlap_0@) && a->Overlap_0@.to_set() == e
}

/// The atom requires at least `n` distinct elements from the canonical
/// listing of this set.
pub open spec fn is_intersect_with(a: ArrayAtom, e: Set<i32>, n: int) -> bool {
    a is IntersectAtLeast && strictly_sorted(a->IntersectAtLeast_0@)
        && a->IntersectAtLeast_0@.to_set() == e && a->IntersectAtLeast_1 == n
}

/// The shape of the single-group clause: an overlap test on the explicit
/// values, or-ed with an overlap test on the wildcard expansion, each part
/// present exactly when the group holds values of that kind.
pub open spec fn is_single_group_clause(cl: ArrayClause, sparks: Seq<i32>) -> bool {
    let sp = spec_specifics(sparks);
    let wl = spec_wildcards(sparks);
    if sp.len() > 0 && wl.len() > 0 {
        cl.atoms@.len() == 2 && is_overlap_with(cl.atoms@[0], sp) && is_overlap_with(
            cl.atoms@[1],
            wildcard_overlap_values(wl),
        )
    } else if sp.len() > 0 {
        cl.atoms@.len() == 1 && is_overlap_with(cl.atoms@[0], sp)
    } else if wl.len() > 0 {
        cl.atoms@.len() == 1 && is_overlap_with(cl.atoms@[0], wildcard_overlap_values(wl))
    } else {
        cl.atoms@.len() == 0
    }
}

/// Split a group into explicit values and wildcard levels, in input order.
#[verifier::loop_isolation(false)]
fn split_specs(sparks: &Vec<i32>) -> (r: (Vec<i32>, Vec<i32>))
    ensures
        r.0@ == spec_specifics(sparks@),
        r.1@ == spec_wildcards(sparks@),
{
    let mut sp: Vec<i32> = Vec::new();
    let mut wl: Vec<i32> = Vec::new();
    let mut i: usize = 0;
    while i < sparks.len()
        invariant
            i <= sparks@.len(),
            sp@ =~= sparks@.take(i as int).filter(|v: i32| v >= 10),
            wl@ =~= sparks@.take(i as int).filter(|v: i32| v < 10),
        decreases sparks@.len() - i,
    {
        let v = sparks[i];
        proof {
            reveal(Seq::filter);
            assert(sparks@.take(i as int + 1).drop_last() =~= sparks@.take(i as int));
            assert(sparks@.take(i as int + 1).last() == v);
        }
        if v >= 10 {
            sp.push(v);
        } else {
            wl.push(v);
        }
        i += 1;
    }
    proof {
        assert(sparks@.take(sparks@.len() as int) =~= sparks@);
    }
    (sp, wl)
}

/// Build the wildcard overlap list of a group: every factor identifier
/// crossed with every requested level, factor-major.
#[verifier::loop_isolation(false)]
fn build_wildcard_overlap(levels: &Vec<i32>) -> (r: Vec<i32>)
    requires
        levels@.len() > 0,
        forall|i: int| 0 <= i < levels@.len() ==> #[trigger] levels@[i] < 10,
    ensures
        r@ == wildcard_overlap_values(levels@),
{
    let m = levels.len();
    let mut r: Vec<i32> = Vec::new();
    let mut f: i32 = 1;
    while f <= MAX_FACTOR_ID
        invariant
            1 <= f <= 101,
            r@.len() == (f - 1) * m,
            forall|i: int|
                0 <= i < r@.len() ==> #[trigger] r@[i] == wildcard_overlap_values(levels@)[i],
        decreases 101 - f,
    {
        let mut li: usize = 0;
        while li < m
            invariant
                li <= m,
                1 <= f <= 100,
                r@.len() == (f - 1) * m + li,
                forall|i: int|
                    0 <= i < r@.len() ==> #[trigger] r@[i] == wildcard_overlap_values(levels@)[i],
            decreases m - li,
        {
            let ghost idx = r@.len() as int;
            r.push(f * 10 + levels[li]);
            proof {
                assert(idx / m as int == f - 1 && idx % m as int == li && idx < 100 * (
                m as int)) by (nonlinear_arith)
                    requires
                        idx == (f - 1) * m + li,
                        0 <= li < m,
                        1 <= f <= 100,
                {}
                assert(wildcard_overlap_values(levels@)[idx] == ((f * 10
                    + levels@[li as int]) as i32));
                assert(r@[idx] == wildcard_overlap_values(levels@)[idx]);
            }
            li += 1;
        }
        f += 1;
        proof {
            assert((f - 2) * m + m == (f - 1) * m) by (nonlinear_arith) {}
        }
    }
    proof {
        assert(r@.len() == wildcard_overlap_values(levels@).len());
        assert(r@ =~= wildcard_overlap_values(levels@));
    }
    r
}

/// Build the predicate clause of a single spark group: explicit values
/// become one overlap test, wildcard levels another, or-ed together.
pub fn single_group_clause(sparks: &Vec<i32>) -> (r: ArrayClause)
    ensures
        is_single_group_clause(r, sparks@),
{
    let (sp, wl) = split_specs(sparks);
    let mut atoms: Vec<ArrayAtom> = Vec::new();
    let has_sp = sp.len() > 0;
    if has_sp {
        atoms.push(ArrayAtom::Overlap(sp));
    }
    if wl.len() > 0 {
        proof {
            assert forall|i: int| 0 <= i < wl@.len() implies #[trigger] wl@[i] < 10 by {
                sparks@.lemma_filter_pred(|v: i32| v < 10, i);
            }
        }
        let wvals = build_wildcard_overlap(&wl);
        atoms.push(ArrayAtom::Overlap(wvals));
    }
    ArrayClause { atoms }
}

} // verus!

verus! {

/// The union of a list of sets.
pub open spec fn union_all(es: Seq<Set<i32>>) -> Set<i32>
    decreases es.len(),
{
    if es.len() == 0 {
        Set::<i32>::empty()
    } else {
        union_all(es.drop_last()).union(es.last())
    }
}

/// Every set in the list is the same set.
pub open spec fn all_same(es: Seq<Set<i32>>) -> bool {
    forall|i: int| 0 <= i < es.len() ==> #[trigger] es[i] == es[0]
}

/// The sets in the list are pairwise disjoint.
pub open spec fn pairwise_disjoint(es: Seq<Set<i32>>) -> bool {
    forall|i: int, j: int| 0 <= i < j < es.len() ==> es[i].disjoint(es[j])
}

/// The views of a list of vectors.
pub open spec fn views_of_vecs(gs: Seq<Vec<i32>>) -> Seq<Seq<i32>> {
    gs.map_values(|v: Vec<i32>| v@)
}

/// The expanded sets of a list of groups.
pub open spec fn expanded_sets(groups: Seq<Seq<i32>>) -> Seq<Set<i32>> {
    Seq::new(groups.len(), |i: int| expanded_set(groups[i]))
}

/// The clause holds a single atom requiring at least `k` distinct elements
/// of `e`.
pub open spec fn is_intersect_clause(cl: ArrayClause, e: Set<i32>, k: int) -> bool {
    cl.atoms@.len() == 1 && is_intersect_with(cl.atoms@[0], e, k)
}

/// The clause holds a single overlap atom over the canonical listing of `e`.
pub open spec fn is_overlap_clause(cl: ArrayClause, e: Set<i32>) -> bool {
    cl.atoms@.len() == 1 && is_overlap_canonical(cl.atoms@[0], e)
}

/// The shape of the combined predicate for a list of spark groups, exactly
/// as the search endpoint builds it:
/// - no groups: no condition;
/// - one group: the single-group clause (nothing for an empty group);
/// - several groups that expand to one and the same set: at least as many
///   distinct matching elements as there are groups;
/// - two disjoint groups: two independent overlap tests;
/// - two overlapping groups: a match in each group plus a total cardinality
///   of at least two (an approximation that does not prove a distinct
///   assignment exists);
/// - three or more pairwise disjoint groups: one overlap test per group;
/// - otherwise: at least as many distinct elements as groups, drawn from
///   the union of all the groups' expansions.
pub open spec fn multi_group_shape(r: ArrayCond, groups: Seq<Seq<i32>>) -> bool {
    let n = groups.len() as int;
    let es = expanded_sets(groups);
    if n == 0 {
        r.clauses@.len() == 0
    } else if n == 1 {
        if groups[0].len() == 0 {
            r.clauses@.len() == 0
        } else {
            r.clauses@.len() == 1 && is_single_group_clause(r.clauses@[0], groups[0])
        }
    } else if all_same(es) {
        r.clauses@.len() == 1 && is_intersect_clause(r.clauses@[0], es[0], n)
    } else if n == 2 && es[0].disjoint(es[1]) {
        r.clauses@.len() == 2 && is_overlap_clause(r.clauses@[0], es[0]) && is_overlap_clause(
            r.clauses@[1],
            es[1],
        )
    } else if n == 2 {
        r.clauses@.len() == 3 && is_intersect_clause(r.clauses@[0], es[0], 1)
            && is_intersect_clause(r.clauses@[1], es[1], 1) && r.clauses@[2].atoms@.len() == 1
            && r.clauses@[2].atoms@[0] == ArrayAtom::CardAtLeast(2usize)
    } else if pairwise_disjoint(es) {
        r.clauses@.len() == n && forall|i: int|
            0 <= i < n ==> is_overlap_clause(#[trigger] r.clauses@[i], es[i])
    } else {
        r.clauses@.len() == 1 && is_intersect_clause(r.clauses@[0], union_all(es), n)
    }
}

/// Whether two vectors hold the same values in the same order.
fn vec_eq(a: &Vec<i32>, b: &Vec<i32>) -> (r: bool)
    ensures
        r <==> a@ == b@,
{
    if a.len() != b.len() {
        proof {
            assert(a@ != b@);
        }
        return false;
    }
    let mut i: usize = 0;
    while i < a.len()
        invariant
            i <= a@.len(),
            a@.len() == b@.len(),
            forall|j: int| 0 <= j < i ==> a@[j] == b@[j],
        decreases a@.len() - i,
    {
        if a[i] != b[i] {
            return false;
        }
        i += 1;
    }
    proof {
        assert(a@ =~= b@);
    }
    true
}

/// Whether two vectors share no value.
fn vecs_disjoint(a: &Vec<i32>, b: &Vec<i32>) -> (r: bool)
    ensures
        r == a@.to_set().disjoint(b@.to_set()),
{
    let mut i: usize = 0;
    while i < a.len()
        invariant
            i <= a@.len(),
            forall|j: int| 0 <= j < i ==> !b@.contains(#[trigger] a@[j]),
        decreases a@.len() - i,
    {
        if vec_contains(b, a[i]) {
            proof {
                assert(a@.to_set().contains(a@[i as int]));
                assert(b@.to_set().contains(a@[i as int]));
            }
            return false;
        }
        i += 1;
    }
    proof {
        assert forall|v: i32| a@.to_set().contains(v) implies !b@.to_set().contains(v) by {
            let j = choose|j: int| 0 <= j < a@.len() && a@[j] == v;
            assert(!b@.contains(a@[j]));
        }
    }
    true
}

/// Pairs checked so far by the pairwise-disjointness scan.
spec fn pairs_disjoint_upto(es: Seq<Set<i32>>, i: int, j: int) -> bool {
    forall|a: int, b: int|
        #![trigger es[a].disjoint(es[b])]
        0 <= a < b < es.len() && (a < i || (a == i && b < j)) ==> es[a].disjoint(es[b])
}

/// Every intersection-count in the condition is at most `b`.
pub open spec fn intersect_counts_at_most(c: ArrayCond, b: int) -> bool {
    forall|i: int, j: int|
        0 <= i < c.clauses@.len() && 0 <= j < c.clauses@[i].atoms@.len()
            && #[trigger] c.clauses@[i].atoms@[j] is IntersectAtLeast
            ==> c.clauses@[i].atoms@[j]->IntersectAtLeast_1 <= b
}

/// Build the combined predicate for a list of spark groups: the case
/// analysis of `multi_group_shape`, with each group first expanded to its
/// canonical value list.
#[verifier::loop_isolation(false)]
pub fn multi_group_condition(groups: &Vec<Vec<i32>>) -> (r: ArrayCond)
    ensures
        multi_group_shape(r, views_of_vecs(groups@)),
        intersect_counts_at_most(r, groups@.len() as int),
{
    let ghost gs = views_of_vecs(groups@);
    let ghost es = expanded_sets(gs);
    let n = groups.len();
    let mut clauses: Vec<ArrayClause> = Vec::new();
    if n == 0 {
        return ArrayCond { clauses };
    }
    if n == 1 {
        if groups[0].len() == 0 {
            return ArrayCond { clauses };
        }
        let cl = single_group_clause(&groups[0]);
        clauses.push(cl);
        return ArrayCond { clauses };
    }
    let mut exp: Vec<Vec<i32>> = Vec::new();
    let mut i: usize = 0;
    while i < n
        invariant
            i <= n,
            exp@.len() == i,
            forall|m: int|
                0 <= m < i ==> strictly_sorted(#[trigger] exp@[m]@) && exp@[m]@.to_set() == es[m],
        decreases n - i,
    {
        let e = expand_spark_group(&groups[i]);
        proof {
            assert(gs[i as int] == groups@[i as int]@);
        }
        exp.push(e);
        i += 1;
    }
    let mut all_id = true;
    let mut i: usize = 1;
    while i < n
        invariant
            1 <= i <= n,
            all_id <==> (forall|m: int| 0 <= m < i ==> #[trigger] es[m] == es[0]),
        decreases n - i,
    {
        if !vec_eq(&exp[0], &exp[i]) {
            proof {
                assert(es[i as int] != es[0]) by {
                    if es[i as int] == es[0] {
                        lemma_canonical_unique(exp@[0]@, exp@[i as int]@);
                    }
                }
            }
            all_id = false;
        }
        i += 1;
    }
    if all_id {
        let e0 = expand_spark_group(&groups[0]);
        proof {
            assert(gs[0] == groups@[0]@);
        }
        let mut atoms: Vec<ArrayAtom> = Vec::new();
        atoms.push(ArrayAtom::IntersectAtLeast(e0, n));
        clauses.push(ArrayClause { atoms });
        return ArrayCond { clauses };
    }
    if n == 2 {
        let disjoint = vecs_disjoint(&exp[0], &exp[1]);
        let e1 = exp.remove(1);
        let e0 = exp.remove(0);
        if disjoint {
            let mut atoms0: Vec<ArrayAtom> = Vec::new();
            atoms0.push(ArrayAtom::Overlap(e0));
            clauses.push(ArrayClause { atoms: atoms0 });
            let mut atoms1: Vec<ArrayAtom> = Vec::new();
            atoms1.push(ArrayAtom::Overlap(e1));
            clauses.push(ArrayClause { atoms: atoms1 });
        } else {
            let mut atoms0: Vec<ArrayAtom> = Vec::new();
            atoms0.push(ArrayAtom::IntersectAtLeast(e0, 1));
            clauses.push(ArrayClause { atoms: atoms0 });
            let mut atoms1: Vec<ArrayAtom> = Vec::new();
            atoms1.push(ArrayAtom::IntersectAtLeast(e1, 1));
            clauses.push(ArrayClause { atoms: atoms1 });
            let mut atoms2: Vec<ArrayAtom> = Vec::new();
            atoms2.push(ArrayAtom::CardAtLeast(2));
            clauses.push(ArrayClause { atoms: atoms2 });
        }
        return ArrayCond { clauses };
    }
    let mut pd = true;
    let mut i: usize = 0;
    while i < n
        invariant
            i <= n,
            pd <==> pairs_disjoint_upto(es, i as int, i as int + 1),
        decreases n - i,
    {
        let mut j: usize = i + 1;
        while j < n
            invariant
                i < j <= n,
                pd <==> pairs_disjoint_upto(es, i as int, j as int),
            decreases n - j,
        {
            if !vecs_disjoint(&exp[i], &exp[j]) {
                pd = false;
            }
            j += 1;
        }
        i += 1;
        proof {
            assert(pairs_disjoint_upto(es, i as int - 1, n as int) == pairs_disjoint_upto(
                es,
                i as int,
                i as int + 1,
            ));
        }
    }
    if pd {
        let ghost exp0 = exp@;
        let mut k: usize = 0;
        while k < n
            invariant
                k <= n,
                exp@.len() == n - k,
                forall|m: int| 0 <= m < exp@.len() ==> #[trigger] exp@[m] == exp0[m + k],
                clauses@.len() == k,
                forall|m: int|
                    0 <= m < k ==> is_overlap_clause(#[trigger] clauses@[m], es[m]),
            decreases n - k,
        {
            let v = exp.remove(0);
            let mut atoms: Vec<ArrayAtom> = Vec::new();
            atoms.push(ArrayAtom::Overlap(v));
            clauses.push(ArrayClause { atoms });
            k += 1;
        }
        return ArrayCond { clauses };
    }
    let mut u: Vec<i32> = Vec::new();
    let mut i: usize = 0;
    while i < n
        invariant
            i <= n,
            exp@.len() == n - i,
            forall|m: int|
                0 <= m < exp@.len() ==> strictly_sorted(#[trigger] exp@[m]@) && exp@[m]@.to_set()
                    == es[m + i],
            strictly_sorted(u@),
            u@.to_set() =~= union_all(es.take(i as int)),
        decreases n - i,
    {
        let row = exp.remove(0);
        proof {
            assert(row@.to_set() == es[i as int]);
        }
        let mut j: usize = 0;
        while j < row.len()
            invariant
                j <= row@.len(),
                strictly_sorted(u@),
                u@.to_set() =~= union_all(es.take(i as int)).union(row@.take(j as int).to_set()),
            decreases row@.len() - j,
        {
            insert_sorted_unique(&mut u, row[j]);
            proof {
                let t0 = row@.take(j as int);
                let t1 = row@.take(j as int + 1);
                assert(t1 =~= t0.push(row@[j as int]));
                assert forall|y: i32| t1.to_set().contains(y) implies t0.to_set().insert(
                    row@[j as int],
                ).contains(y) by {
                    let m = choose|m: int| 0 <= m < t1.len() && #[trigger] t1[m] == y;
                    if m < j {
                        assert(t0[m] == y);
                    }
                }
                assert forall|y: i32| t0.to_set().insert(row@[j as int]).contains(y) implies t1.to_set().contains(
                    y,
                ) by {
                    if y == row@[j as int] {
                        assert(t1[j as int] == y);
                    } else {
                        let m = choose|m: int| 0 <= m < t0.len() && #[trigger] t0[m] == y;
                        assert(t1[m] == y);
                    }
                }
                assert(t1.to_set() =~= t0.to_set().insert(row@[j as int]));
            }
            j += 1;
        }
        proof {
            assert(row@.take(row@.len() as int) =~= row@);
            assert(es.take(i as int + 1).drop_last() =~= es.take(i as int));
            assert(es.take(i as int + 1).last() == es[i as int]);
        }
        i += 1;
    }
    proof {
        assert(es.take(es.len() as int) =~= es);
    }
    let mut atoms: Vec<ArrayAtom> = Vec::new();
    atoms.push(ArrayAtom::IntersectAtLeast(u, n));
    clauses.push(ArrayClause { atoms });
    ArrayCond { clauses }
}

} // verus!

verus! {

/// The values of the "all stats at this star level" shortcut: one
/// `stat_type*100+star` value for each of the six stat categories.
pub fn nine_star_values(star: i32) -> (r: Vec<i32>)
    requires
        0 <= star <= 9,
    ensures
        r@ == Seq::new(6, |i: int| ((i + 1) * 100 + star) as i32),
{
    let mut r: Vec<i32> = Vec::new();
    let mut t: i32 = 1;
    while t <= 6
        invariant
            1 <= t <= 7,
            0 <= star <= 9,
            r@ =~= Seq::new((t - 1) as nat, |i: int| ((i + 1) * 100 + star) as i32),
        decreases 7 - t,
    {
        r.push(t * 100 + star);
        proof {
            assert(r@ =~= Seq::new(t as nat, |i: int| ((i + 1) * 100 + star) as i32));
        }
        t += 1;
    }
    r
}

/// An atomic predicate over a scalar integer column (the per-color main
/// factor counters).
#[derive(Debug, Clone)]
pub enum ScalarAtom {
    /// The column equals one of the given values (`column = ANY(ARRAY[..])`).
    EqAny(Vec<i32>),
    /// The column's final digit is at least this level
    /// (`column % 10 >= level`; meaningful for the non-negative values these
    /// columns hold).
    ModAtLeast(i32),
}

/// A disjunction of scalar atoms.
#[derive(Debug, Clone)]
pub struct ScalarClause {
    pub atoms: Vec<ScalarAtom>,
}

/// Whether a scalar atom holds of a non-negative column value.
pub open spec fn scalar_atom_holds(a: ScalarAtom, v: i32) -> bool {
    match a {
        ScalarAtom::EqAny(vs) => vs@.contains(v),
        ScalarAtom::ModAtLeast(w) => (v as int) % 10 >= w,
    }
}

/// Whether a scalar clause holds of a non-negative column value.
pub open spec fn scalar_clause_holds(cl: ScalarClause, v: i32) -> bool {
    exists|i: int| 0 <= i < cl.atoms@.len() && scalar_atom_holds(#[trigger] cl.atoms@[i], v)
}

/// The least element of a non-empty sequence.
pub open spec fn seq_min(s: Seq<i32>) -> i32
    decreases s.len(),
{
    if s.len() <= 1 {
        s[0]
    } else {
        let m = seq_min(s.drop_last());
        if s.last() < m {
            s.last()
        } else {
            m
        }
    }
}

/// The shape of the main-parent clause of one spark group: an equality test
/// on the explicit values, or-ed with a final-digit test at the least
/// requested wildcard level, each part present exactly when the group holds
/// values of that kind.
pub open spec fn is_main_parent_clause(cl: ScalarClause, sparks: Seq<i32>) -> bool {
    let sp = spec_specifics(sparks);
    let wl = spec_wildcards(sparks);
    if sp.len() > 0 && wl.len() > 0 {
        cl.atoms@.len() == 2 && cl.atoms@[0] is EqAny && cl.atoms@[0]->EqAny_0@ == sp
            && cl.atoms@[1] == ScalarAtom::ModAtLeast(seq_min(wl))
    } else if sp.len() > 0 {
        cl.atoms@.len() == 1 && cl.atoms@[0] is EqAny && cl.atoms@[0]->EqAny_0@ == sp
    } else if wl.len() > 0 {
        cl.atoms@.len() == 1 && cl.atoms@[0] == ScalarAtom::ModAtLeast(seq_min(wl))
    } else {
        cl.atoms@.len() == 0
    }
}

/// Build the main-parent predicate clause of one spark group.
#[verifier::loop_isolation(false)]
pub fn main_parent_clause(sparks: &Vec<i32>) -> (r: ScalarClause)
    ensures
        is_main_parent_clause(r, sparks@),
{
    let (sp, wl) = split_specs(sparks);
    let mut atoms: Vec<ScalarAtom> = Vec::new();
    let has_sp = sp.len() > 0;
    if has_sp {
        atoms.push(ScalarAtom::EqAny(sp));
    }
    if wl.len() > 0 {
        let mut m: i32 = wl[0];
        let mut i: usize = 1;
        proof {
            assert(wl@.take(1) =~= seq![wl@[0]]);
        }
        while i < wl.len()
            invariant
                1 <= i <= wl@.len(),
                m == seq_min(wl@.take(i as int)),
            decreases wl@.len() - i,
        {
            proof {
                assert(wl@.take(i as int + 1).drop_last() =~= wl@.take(i as int));
                assert(wl@.take(i as int + 1).last() == wl@[i as int]);
            }
            if wl[i] < m {
                m = wl[i];
            }
            i += 1;
        }
        proof {
            assert(wl@.take(wl@.len() as int) =~= wl@);
        }
        atoms.push(ScalarAtom::ModAtLeast(m));
    }
    ScalarClause { atoms }
}

/// Law: the combined predicate of two groups with one and the same expanded
/// set holds of a record exactly when at least two distinct elements of the
/// record's array lie in that set — one matching element alone is not
/// enough.
pub proof fn lemma_identical_pair_needs_two(c: ArrayCond, e: Set<i32>, arr: Seq<i32>)
    requires
        c.clauses@.len() == 1,
        is_intersect_clause(c.clauses@[0], e, 2),
    ensures
        cond_holds(c, arr) <==> arr.to_set().intersect(e).len() >= 2,
{
    let vs = c.clauses@[0].atoms@[0]->IntersectAtLeast_0;
    assert(overlap_set(arr, vs@) == arr.to_set().intersect(e));
    if overlap_set(arr, vs@).len() >= 2 {
        assert(atom_holds(c.clauses@[0].atoms@[0], arr));
        assert(clause_holds(c.clauses@[0], arr));
    }
    if cond_holds(c, arr) {
        assert(clause_holds(c.clauses@[0], arr));
        let i = choose|i: int|
            0 <= i < c.clauses@[0].atoms@.len() && atom_holds(
                #[trigger] c.clauses@[0].atoms@[i],
                arr,
            );
        assert(i == 0);
    }
}

/// Law: the combined predicate of two groups with disjoint expanded sets
/// holds of a record exactly when the record's array shares an element with
/// each of the two sets.
pub proof fn lemma_disjoint_pair_semantics(c: ArrayCond, e1: Set<i32>, e2: Set<i32>, arr: Seq<i32>)
    requires
        c.clauses@.len() == 2,
        is_overlap_clause(c.clauses@[0], e1),
        is_overlap_clause(c.clauses@[1], e2),
    ensures
        cond_holds(c, arr) <==> ((exists|i: int| 0 <= i < arr.len() && e1.contains(#[trigger] arr[i]))
            && (exists|i: int| 0 <= i < arr.len() && e2.contains(#[trigger] arr[i]))),
{
    let vs1 = c.clauses@[0].atoms@[0]->Overlap_0;
    let vs2 = c.clauses@[1].atoms@[0]->Overlap_0;
    assert forall|x: i32| vs1@.contains(x) == e1.contains(x) by {
        assert(vs1@.to_set().contains(x) == vs1@.contains(x));
    }
    assert forall|x: i32| vs2@.contains(x) == e2.contains(x) by {
        assert(vs2@.to_set().contains(x) == vs2@.contains(x));
    }
    if cond_holds(c, arr) {
        assert(clause_holds(c.clauses@[0], arr));
        assert(clause_holds(c.clauses@[1], arr));
        let i1 = choose|i: int|
            0 <= i < c.clauses@[0].atoms@.len() && atom_holds(
                #[trigger] c.clauses@[0].atoms@[i],
                arr,
            );
        assert(i1 == 0);
        let i2 = choose|i: int|
            0 <= i < c.clauses@[1].atoms@.len() && atom_holds(
                #[trigger] c.clauses@[1].atoms@[i],
                arr,
            );
        assert(i2 == 0);
        let j1 = choose|j: int| 0 <= j < arr.len() && vs1@.contains(#[trigger] arr[j]);
        assert(e1.contains(arr[j1]));
        let j2 = choose|j: int| 0 <= j < arr.len() && vs2@.contains(#[trigger] arr[j]);
        assert(e2.contains(arr[j2]));
    }
    if ((exists|i: int| 0 <= i < arr.len() && e1.contains(#[trigger] arr[i])) && (exists|i: int|
        0 <= i < arr.len() && e2.contains(#[trigger] arr[i]))) {
        let j1 = choose|j: int| 0 <= j < arr.len() && e1.contains(#[trigger] arr[j]);
        assert(vs1@.contains(arr[j1]));
        assert(atom_holds(c.clauses@[0].atoms@[0], arr));
        assert(clause_holds(c.clauses@[0], arr));
        let j2 = choose|j: int| 0 <= j < arr.len() && e2.contains(#[trigger] arr[j]);
        assert(vs2@.contains(arr[j2]));
        assert(atom_holds(c.clauses@[1].atoms@[0], arr));
        assert(clause_holds(c.clauses@[1], arr));
        assert forall|i: int| 0 <= i < c.clauses@.len() implies clause_holds(
            #[trigger] c.clauses@[i],
            arr,
        ) by {
            if i == 0 {
            } else {
                assert(i == 1);
            }
        }
    }
}

} // verus!

verus! {

/// There are never more parsed groups than group parameters.
pub proof fn lemma_spec_groups_len(gs: Seq<Seq<char>>)
    ensures
        spec_groups(gs).len() <= gs.len(),
    decreases gs.len(),
{
    if gs.len() > 0 {
        lemma_spec_groups_len(gs.drop_last());
    }
}


} // verus!
