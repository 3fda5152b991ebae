//! A parameterized-SQL builder that keeps statement text and bound values
//! together: text is only ever appended from trusted fragments, and every
//! caller-controlled value becomes a numbered `$n` placeholder with its
//! value in the bind list — never text.  The spark-condition renderers turn
//! the predicate values of the spark algebra into such fragments.
use vstd::prelude::*;

verus! {

use crate::spark::{ArrayAtom, ArrayClause, ArrayCond, ScalarAtom, ScalarClause};
use crate::text::{spec_dec, u64_to_string};

/// A value bound to a `$n` placeholder.
#[derive(Debug, Clone)]
pub enum BindValue {
    Int(i32),
    BigInt(i64),
    Text(String),
}

/// A SQL statement under construction: its text and its bound values, in
/// placeholder order.
#[derive(Debug)]
pub struct SqlBuilder {
    pub sql: String,
    pub binds: Vec<BindValue>,
}

/// The text of the placeholder for bind number `n` (1-based).
pub open spec fn placeholder(n: int) -> Seq<char> {
    seq!['$'] + spec_dec(n as nat)
}

/// The text of `count` comma-separated placeholders starting at bind number
/// `start + 1`.
pub open spec fn placeholders_sql(start: int, count: int) -> Seq<char>
    decreases count,
{
    if count <= 0 {
        Seq::<char>::empty()
    } else if count == 1 {
        placeholder(start + 1)
    } else {
        placeholders_sql(start, count - 1) + seq![','] + placeholder(start + count)
    }
}

impl SqlBuilder {
    /// An empty statement.
    pub fn new() -> (r: SqlBuilder)
        ensures
            r.sql@ =~= Seq::<char>::empty(),
            r.binds@ =~= Seq::<BindValue>::empty(),
    {
        SqlBuilder { sql: String::new(), binds: Vec::new() }
    }

    /// Append a trusted text fragment.
    pub fn push(&mut self, fragment: &str)
        ensures
            final(self).sql@ == old(self).sql@ + fragment@,
            final(self).binds@ == old(self).binds@,
    {
        self.sql.append(fragment);
    }

    /// Bind an `i32` value: appends its placeholder to the text and the
    /// value to the bind list.
    pub fn push_bind_i32(&mut self, v: i32)
        ensures
            final(self).sql@ == old(self).sql@ + placeholder(old(self).binds@.len() as int + 1),
            final(self).binds@ == old(self).binds@.push(BindValue::Int(v)),
    {
        self.binds.push(BindValue::Int(v));
        self.push_placeholder();
    }

    /// Bind an `i64` value.
    pub fn push_bind_i64(&mut self, v: i64)
        ensures
            final(self).sql@ == old(self).sql@ + placeholder(old(self).binds@.len() as int + 1),
            final(self).binds@ == old(self).binds@.push(BindValue::BigInt(v)),
    {
        self.binds.push(BindValue::BigInt(v));
        self.push_placeholder();
    }

    /// Bind a text value.
    pub fn push_bind_text(&mut self, v: String)
        ensures
            final(self).sql@ == old(self).sql@ + placeholder(old(self).binds@.len() as int + 1),
            final(self).binds@ == old(self).binds@.push(BindValue::Text(v)),
    {
        self.binds.push(BindValue::Text(v));
        self.push_placeholder();
    }

    /// Append the placeholder of the most recent bind.
    fn push_placeholder(&mut self)
        requires
            old(self).binds@.len() >= 1,
        ensures
            final(self).sql@ == old(self).sql@ + placeholder(old(self).binds@.len() as int),
            final(self).binds@ == old(self).binds@,
    {
        let n = self.binds.len();
        proof {
            reveal_strlit("$");
        }
        self.sql.append("$");
        let num = u64_to_string(n as u64);
        self.sql.append(num.as_str());
    }
}

} // verus!

verus! {

use crate::spark::{
    is_main_parent_clause, is_overlap_with, is_single_group_clause, intersect_counts_at_most,
    main_parent_clause, multi_group_condition, multi_group_shape, single_group_clause,
    nine_star_values, views_of_vecs,
};
use crate::text::spec_dec_int;

/// The given values as `i32` binds.
pub open spec fn int_binds(vs: Seq<i32>) -> Seq<BindValue> {
    vs.map_values(|v: i32| BindValue::Int(v))
}

/// The binds an array atom contributes, in placeholder order.
pub open spec fn atom_binds(a: ArrayAtom) -> Seq<BindValue> {
    match a {
        ArrayAtom::Overlap(vs) => int_binds(vs@),
        ArrayAtom::IntersectAtLeast(vs, n) => int_binds(vs@).push(BindValue::Int(n as i32)),
        ArrayAtom::CardAtLeast(n) => Seq::<BindValue>::empty(),
    }
}

/// The SQL text of an array atom over `col`, with binds numbered after the
/// `start` values already bound.
pub open spec fn atom_sql(col: Seq<char>, a: ArrayAtom, start: int) -> Seq<char> {
    match a {
        ArrayAtom::Overlap(vs) => col + " && ARRAY["@ + placeholders_sql(start, vs@.len() as int)
            + "]::int[]"@,
        ArrayAtom::IntersectAtLeast(vs, n) => "cardinality(ARRAY(SELECT unnest("@ + col
            + ") INTERSECT SELECT unnest(ARRAY["@ + placeholders_sql(start, vs@.len() as int)
            + "]::int[]))) >= "@ + placeholder(start + vs@.len() as int + 1),
        ArrayAtom::CardAtLeast(n) => "cardinality("@ + col + ") >= "@ + spec_dec(n as nat),
    }
}

/// The binds of a list of atoms, in order.
pub open spec fn atoms_binds(atoms: Seq<ArrayAtom>) -> Seq<BindValue>
    decreases atoms.len(),
{
    if atoms.len() == 0 {
        Seq::<BindValue>::empty()
    } else {
        atoms_binds(atoms.drop_last()) + atom_binds(atoms.last())
    }
}

/// The SQL text of a list of atoms joined by `OR`.
pub open spec fn atoms_sql(col: Seq<char>, atoms: Seq<ArrayAtom>, start: int) -> Seq<char>
    decreases atoms.len(),
{
    if atoms.len() == 0 {
        Seq::<char>::empty()
    } else if atoms.len() == 1 {
        atom_sql(col, atoms[0], start)
    } else {
        atoms_sql(col, atoms.drop_last(), start) + " OR "@ + atom_sql(
            col,
            atoms.last(),
            start + atoms_binds(atoms.drop_last()).len(),
        )
    }
}

/// The binds of a conjunction of clauses, in order.
pub open spec fn cond_binds(clauses: Seq<ArrayClause>) -> Seq<BindValue>
    decreases clauses.len(),
{
    if clauses.len() == 0 {
        Seq::<BindValue>::empty()
    } else {
        cond_binds(clauses.drop_last()) + atoms_binds(clauses.last().atoms@)
    }
}

/// The SQL text of a conjunction of clauses: each clause appended as
/// ` AND (...)`.
pub open spec fn cond_sql(col: Seq<char>, clauses: Seq<ArrayClause>, start: int) -> Seq<char>
    decreases clauses.len(),
{
    if clauses.len() == 0 {
        Seq::<char>::empty()
    } else {
        cond_sql(col, clauses.drop_last(), start) + " AND ("@ + atoms_sql(
            col,
            clauses.last().atoms@,
            start + cond_binds(clauses.drop_last()).len(),
        ) + ")"@
    }
}

/// Every intersection-count among these atoms fits an `i32`.
pub open spec fn atoms_renderable(atoms: Seq<ArrayAtom>) -> bool {
    forall|j: int|
        0 <= j < atoms.len() && #[trigger] atoms[j] is IntersectAtLeast
            ==> atoms[j]->IntersectAtLeast_1 <= i32::MAX
}

/// Append the comma-separated placeholders of `vs`, binding each value.
#[verifier::loop_isolation(false)]
pub fn push_bind_list(qb: &mut SqlBuilder, vs: &Vec<i32>)
    ensures
        final(qb).sql@ == old(qb).sql@ + placeholders_sql(
            old(qb).binds@.len() as int,
            vs@.len() as int,
        ),
        final(qb).binds@ == old(qb).binds@ + int_binds(vs@),
{
    let ghost start = qb.binds@.len() as int;
    let ghost sql0 = qb.sql@;
    let ghost binds0 = qb.binds@;
    let mut i: usize = 0;
    proof {
        assert(int_binds(vs@.take(0)) =~= Seq::<BindValue>::empty());
        assert(qb.sql@ =~= sql0 + placeholders_sql(start, 0));
        assert(qb.binds@ =~= binds0 + int_binds(vs@.take(0)));
    }
    while i < vs.len()
        invariant
            i <= vs@.len(),
            qb.sql@ == sql0 + placeholders_sql(start, i as int),
            qb.binds@ == binds0 + int_binds(vs@.take(i as int)),
        decreases vs@.len() - i,
    {
        if i > 0 {
            proof {
                reveal_strlit(",");
            }
            qb.push(",");
        }
        qb.push_bind_i32(vs[i]);
        proof {
            assert(int_binds(vs@.take(i as int + 1)) =~= int_binds(vs@.take(i as int)).push(
                BindValue::Int(vs@[i as int]),
            ));
            assert(qb.binds@ =~= binds0 + int_binds(vs@.take(i as int + 1)));
            assert(qb.binds@.len() == binds0.len() + i + 1);
            if i == 0 {
                assert(placeholders_sql(start, 1) == placeholder(start + 1));
                assert(qb.sql@ =~= sql0 + placeholders_sql(start, 1));
            } else {
                assert(placeholders_sql(start, i as int + 1) == placeholders_sql(start, i as int)
                    + seq![','] + placeholder(start + i + 1));
                assert(","@ =~= seq![',']);
                assert(qb.sql@ =~= sql0 + placeholders_sql(start, i as int + 1));
            }
        }
        i += 1;
    }
    proof {
        assert(vs@.take(vs@.len() as int) =~= vs@);
    }
}

/// Append the SQL of one array atom over `column`, binding its values.
fn push_array_atom(qb: &mut SqlBuilder, column: &str, a: &ArrayAtom)
    requires
        a is IntersectAtLeast ==> a->IntersectAtLeast_1 <= i32::MAX,
    ensures
        final(qb).sql@ == old(qb).sql@ + atom_sql(column@, *a, old(qb).binds@.len() as int),
        final(qb).binds@ == old(qb).binds@ + atom_binds(*a),
{
    match a {
        ArrayAtom::Overlap(vs) => {
            qb.push(column);
            qb.push(" && ARRAY[");
            push_bind_list(qb, vs);
            qb.push("]::int[]");
        },
        ArrayAtom::IntersectAtLeast(vs, n) => {
            qb.push("cardinality(ARRAY(SELECT unnest(");
            qb.push(column);
            qb.push(") INTERSECT SELECT unnest(ARRAY[");
            push_bind_list(qb, vs);
            qb.push("]::int[]))) >= ");
            qb.push_bind_i32(*n as i32);
        },
        ArrayAtom::CardAtLeast(n) => {
            qb.push("cardinality(");
            qb.push(column);
            qb.push(") >= ");
            let num = crate::text::u64_to_string(*n as u64);
            qb.push(num.as_str());
        },
    }
}

/// Append the SQL of a clause's atoms joined by `OR`, binding their values.
#[verifier::loop_isolation(false)]
fn push_array_atoms(qb: &mut SqlBuilder, column: &str, atoms: &Vec<ArrayAtom>)
    requires
        atoms_renderable(atoms@),
    ensures
        final(qb).sql@ == old(qb).sql@ + atoms_sql(column@, atoms@, old(qb).binds@.len() as int),
        final(qb).binds@ == old(qb).binds@ + atoms_binds(atoms@),
{
    let ghost start = qb.binds@.len() as int;
    let ghost sql0 = qb.sql@;
    let ghost binds0 = qb.binds@;
    let mut i: usize = 0;
    proof {
        assert(atoms_binds(atoms@.take(0)) =~= Seq::<BindValue>::empty());
        assert(atoms_sql(column@, atoms@.take(0), start) =~= Seq::<char>::empty());
        assert(qb.sql@ =~= sql0 + atoms_sql(column@, atoms@.take(0), start));
        assert(qb.binds@ =~= binds0 + atoms_binds(atoms@.take(0)));
    }
    while i < atoms.len()
        invariant
            i <= atoms@.len(),
            qb.sql@ == sql0 + atoms_sql(column@, atoms@.take(i as int), start),
            qb.binds@ == binds0 + atoms_binds(atoms@.take(i as int)),
        decreases atoms@.len() - i,
    {
        if i > 0 {
            qb.push(" OR ");
        }
        push_array_atom(qb, column, &atoms[i]);
        proof {
            let t0 = atoms@.take(i as int);
            let t1 = atoms@.take(i as int + 1);
            assert(t1.drop_last() =~= t0);
            assert(t1.last() == atoms@[i as int]);
            assert(atoms_binds(t1) == atoms_binds(t0) + atom_binds(atoms@[i as int]));
            assert(qb.binds@ =~= binds0 + atoms_binds(t1));
            if i == 0 {
                assert(t1.len() == 1 && t1[0] == atoms@[0]);
                assert(atoms_sql(column@, t1, start) == atom_sql(column@, atoms@[0], start));
                assert(qb.sql@ =~= sql0 + atoms_sql(column@, t1, start));
            } else {
                assert(atoms_sql(column@, t1, start) == atoms_sql(column@, t0, start) + " OR "@
                    + atom_sql(column@, atoms@[i as int], start + atoms_binds(t0).len()));
                assert(binds0.len() + atoms_binds(t0).len() == qb.binds@.len()
                    - atom_binds(atoms@[i as int]).len());
                assert(qb.sql@ =~= sql0 + atoms_sql(column@, t1, start));
            }
        }
        i += 1;
    }
    proof {
        assert(atoms@.take(atoms@.len() as int) =~= atoms@);
    }
}

/// Append the SQL of a whole condition: each clause as ` AND (...)`.
#[verifier::loop_isolation(false)]
pub fn push_array_cond(qb: &mut SqlBuilder, column: &str, c: &ArrayCond)
    requires
        forall|i: int|
            0 <= i < c.clauses@.len() ==> atoms_renderable(#[trigger] c.clauses@[i].atoms@),
    ensures
        final(qb).sql@ == old(qb).sql@ + cond_sql(
            column@,
            c.clauses@,
            old(qb).binds@.len() as int,
        ),
        final(qb).binds@ == old(qb).binds@ + cond_binds(c.clauses@),
{
    let ghost start = qb.binds@.len() as int;
    let ghost sql0 = qb.sql@;
    let ghost binds0 = qb.binds@;
    let mut i: usize = 0;
    proof {
        assert(cond_binds(c.clauses@.take(0)) =~= Seq::<BindValue>::empty());
        assert(cond_sql(column@, c.clauses@.take(0), start) =~= Seq::<char>::empty());
        assert(qb.sql@ =~= sql0 + cond_sql(column@, c.clauses@.take(0), start));
        assert(qb.binds@ =~= binds0 + cond_binds(c.clauses@.take(0)));
    }
    while i < c.clauses.len()
        invariant
            i <= c.clauses@.len(),
            qb.sql@ == sql0 + cond_sql(column@, c.clauses@.take(i as int), start),
            qb.binds@ == binds0 + cond_binds(c.clauses@.take(i as int)),
        decreases c.clauses@.len() - i,
    {
        qb.push(" AND (");
        push_array_atoms(qb, column, &c.clauses[i].atoms);
        qb.push(")");
        proof {
            let t0 = c.clauses@.take(i as int);
            let t1 = c.clauses@.take(i as int + 1);
            assert(t1.drop_last() =~= t0);
            assert(t1.last() == c.clauses@[i as int]);
            assert(cond_binds(t1) == cond_binds(t0) + atoms_binds(c.clauses@[i as int].atoms@));
            assert(qb.binds@ =~= binds0 + cond_binds(t1));
            assert(cond_sql(column@, t1, start) == cond_sql(column@, t0, start) + " AND ("@
                + atoms_sql(column@, c.clauses@[i as int].atoms@, start + cond_binds(t0).len())
                + ")"@);
            assert(qb.sql@ =~= sql0 + cond_sql(column@, t1, start));
        }
        i += 1;
    }
    proof {
        assert(c.clauses@.take(c.clauses@.len() as int) =~= c.clauses@);
    }
}

/// Build and append the combined spark predicate of several groups over an
/// array column, returning the condition that was rendered.
pub fn add_multi_group_spark_conditions(
    qb: &mut SqlBuilder,
    column: &str,
    groups: &Vec<Vec<i32>>,
) -> (c: ArrayCond)
    requires
        groups@.len() <= i32::MAX,
    ensures
        multi_group_shape(c, views_of_vecs(groups@)),
        final(qb).sql@ == old(qb).sql@ + cond_sql(column@, c.clauses@, old(qb).binds@.len() as int),
        final(qb).binds@ == old(qb).binds@ + cond_binds(c.clauses@),
{
    let c = multi_group_condition(groups);
    proof {
        assert forall|i: int|
            0 <= i < c.clauses@.len() implies atoms_renderable(#[trigger] c.clauses@[i].atoms@) by {
            assert forall|j: int|
                0 <= j < c.clauses@[i].atoms@.len() && #[trigger] c.clauses@[i].atoms@[j] is IntersectAtLeast implies c.clauses@[i].atoms@[j]->IntersectAtLeast_1
                <= i32::MAX by {
                assert(intersect_counts_at_most(c, groups@.len() as int));
            }
        }
    }
    push_array_cond(qb, column, &c);
    c
}

} // verus!

verus! {

/// Build and append the spark predicate of one group over an array column:
/// ` AND (explicit-overlap OR wildcard-overlap)`, nothing for an empty
/// group.  Returns the clause that was rendered.
pub fn add_spark_range_conditions(qb: &mut SqlBuilder, column: &str, sparks: &Vec<i32>) -> (cl:
    ArrayClause)
    ensures
        is_single_group_clause(cl, sparks@),
        sparks@.len() == 0 ==> final(qb).sql@ == old(qb).sql@ && final(qb).binds@ == old(
            qb,
        ).binds@,
        sparks@.len() > 0 ==> final(qb).sql@ == old(qb).sql@ + " AND ("@ + atoms_sql(
            column@,
            cl.atoms@,
            old(qb).binds@.len() as int,
        ) + ")"@ && final(qb).binds@ == old(qb).binds@ + atoms_binds(cl.atoms@),
{
    let cl = single_group_clause(sparks);
    if sparks.len() == 0 {
        proof {
            crate::spark::spec_specifics(sparks@).lemma_filter_len(|v: i32| v >= 10);
            assert(sparks@.filter(|v: i32| v >= 10).len() <= sparks@.len()) by {
                sparks@.lemma_filter_len(|v: i32| v >= 10);
            }
            assert(sparks@.filter(|v: i32| v < 10).len() <= sparks@.len()) by {
                sparks@.lemma_filter_len(|v: i32| v < 10);
            }
        }
        return cl;
    }
    proof {
        assert(atoms_renderable(cl.atoms@)) by {
            assert forall|j: int|
                0 <= j < cl.atoms@.len() implies !(#[trigger] cl.atoms@[j] is IntersectAtLeast) by {
                assert(is_single_group_clause(cl, sparks@));
            }
        }
    }
    qb.push(" AND (");
    push_array_atoms(qb, column, &cl.atoms);
    qb.push(")");
    cl
}

/// Build and append the "every stat at this star level" shortcut over an
/// array column: ` AND column && ARRAY[..]` with the six per-stat values.
/// Returns the overlap atom that was rendered.
pub fn add_9star_spark_conditions(qb: &mut SqlBuilder, column: &str, desired_star: i32) -> (a:
    ArrayAtom)
    requires
        0 <= desired_star <= 9,
    ensures
        is_overlap_with(a, Seq::new(6, |i: int| ((i + 1) * 100 + desired_star) as i32)),
        final(qb).sql@ == old(qb).sql@ + " AND "@ + atom_sql(
            column@,
            a,
            old(qb).binds@.len() as int,
        ),
        final(qb).binds@ == old(qb).binds@ + atom_binds(a),
{
    let vs = nine_star_values(desired_star);
    let a = ArrayAtom::Overlap(vs);
    qb.push(" AND ");
    push_array_atom(qb, column, &a);
    a
}

/// The binds a scalar atom contributes.
pub open spec fn scalar_atom_binds(a: ScalarAtom) -> Seq<BindValue> {
    match a {
        ScalarAtom::EqAny(vs) => int_binds(vs@),
        ScalarAtom::ModAtLeast(w) => Seq::<BindValue>::empty(),
    }
}

/// The SQL text of a scalar atom over `col`.
pub open spec fn scalar_atom_sql(col: Seq<char>, a: ScalarAtom, start: int) -> Seq<char> {
    match a {
        ScalarAtom::EqAny(vs) => col + " = ANY(ARRAY["@ + placeholders_sql(
            start,
            vs@.len() as int,
        ) + "]::int[])"@,
        ScalarAtom::ModAtLeast(w) => "("@ + col + " % 10 >= "@ + spec_dec_int(w as int) + ")"@,
    }
}

/// The binds of a list of scalar atoms, in order.
pub open spec fn scalar_atoms_binds(atoms: Seq<ScalarAtom>) -> Seq<BindValue>
    decreases atoms.len(),
{
    if atoms.len() == 0 {
        Seq::<BindValue>::empty()
    } else {
        scalar_atoms_binds(atoms.drop_last()) + scalar_atom_binds(atoms.last())
    }
}

/// The SQL text of a list of scalar atoms joined by `OR`.
pub open spec fn scalar_atoms_sql(col: Seq<char>, atoms: Seq<ScalarAtom>, start: int) -> Seq<char>
    decreases atoms.len(),
{
    if atoms.len() == 0 {
        Seq::<char>::empty()
    } else if atoms.len() == 1 {
        scalar_atom_sql(col, atoms[0], start)
    } else {
        scalar_atoms_sql(col, atoms.drop_last(), start) + " OR "@ + scalar_atom_sql(
            col,
            atoms.last(),
            start + scalar_atoms_binds(atoms.drop_last()).len(),
        )
    }
}

/// Append the SQL of one scalar atom over `column`.
fn push_scalar_atom(qb: &mut SqlBuilder, column: &str, a: &ScalarAtom)
    ensures
        final(qb).sql@ == old(qb).sql@ + scalar_atom_sql(column@, *a, old(qb).binds@.len() as int),
        final(qb).binds@ == old(qb).binds@ + scalar_atom_binds(*a),
{
    match a {
        ScalarAtom::EqAny(vs) => {
            qb.push(column);
            qb.push(" = ANY(ARRAY[");
            push_bind_list(qb, vs);
            qb.push("]::int[])");
        },
        ScalarAtom::ModAtLeast(w) => {
            qb.push("(");
            qb.push(column);
            qb.push(" % 10 >= ");
            let num = crate::text::i32_to_string(*w);
            qb.push(num.as_str());
            qb.push(")");
        },
    }
}

/// Build and append the main-parent spark predicate of one group over a
/// scalar column: ` AND (equality-test OR final-digit-test)`, nothing for
/// an empty group.  Returns the clause that was rendered.
#[verifier::loop_isolation(false)]
pub fn add_main_parent_spark_conditions(
    qb: &mut SqlBuilder,
    column: &str,
    sparks: &Vec<i32>,
) -> (cl: ScalarClause)
    ensures
        is_main_parent_clause(cl, sparks@),
        sparks@.len() == 0 ==> final(qb).sql@ == old(qb).sql@ && final(qb).binds@ == old(
            qb,
        ).binds@,
        sparks@.len() > 0 ==> final(qb).sql@ == old(qb).sql@ + " AND ("@ + scalar_atoms_sql(
            column@,
            cl.atoms@,
            old(qb).binds@.len() as int,
        ) + ")"@ && final(qb).binds@ == old(qb).binds@ + scalar_atoms_binds(cl.atoms@),
{
    let cl = main_parent_clause(sparks);
    if sparks.len() == 0 {
        proof {
            assert(sparks@.filter(|v: i32| v >= 10).len() <= sparks@.len()) by {
                sparks@.lemma_filter_len(|v: i32| v >= 10);
            }
            assert(sparks@.filter(|v: i32| v < 10).len() <= sparks@.len()) by {
                sparks@.lemma_filter_len(|v: i32| v < 10);
            }
        }
        return cl;
    }
    qb.push(" AND (");
    let ghost start = qb.binds@.len() as int;
    let ghost sql0 = qb.sql@;
    let ghost binds0 = qb.binds@;
    let mut i: usize = 0;
    proof {
        assert(scalar_atoms_binds(cl.atoms@.take(0)) =~= Seq::<BindValue>::empty());
        assert(scalar_atoms_sql(column@, cl.atoms@.take(0), start) =~= Seq::<char>::empty());
        assert(qb.sql@ =~= sql0 + scalar_atoms_sql(column@, cl.atoms@.take(0), start));
        assert(qb.binds@ =~= binds0 + scalar_atoms_binds(cl.atoms@.take(0)));
    }
    while i < cl.atoms.len()
        invariant
            i <= cl.atoms@.len(),
            qb.sql@ == sql0 + scalar_atoms_sql(column@, cl.atoms@.take(i as int), start),
            qb.binds@ == binds0 + scalar_atoms_binds(cl.atoms@.take(i as int)),
        decreases cl.atoms@.len() - i,
    {
        if i > 0 {
            qb.push(" OR ");
        }
        push_scalar_atom(qb, column, &cl.atoms[i]);
        proof {
            let t0 = cl.atoms@.take(i as int);
            let t1 = cl.atoms@.take(i as int + 1);
            assert(t1.drop_last() =~= t0);
            assert(t1.last() == cl.atoms@[i as int]);
            assert(scalar_atoms_binds(t1) == scalar_atoms_binds(t0) + scalar_atom_binds(
                cl.atoms@[i as int],
            ));
            assert(qb.binds@ =~= binds0 + scalar_atoms_binds(t1));
            if i == 0 {
                assert(t1.len() == 1 && t1[0] == cl.atoms@[0]);
                assert(scalar_atoms_sql(column@, t1, start) == scalar_atom_sql(
                    column@,
                    cl.atoms@[0],
                    start,
                ));
                assert(qb.sql@ =~= sql0 + scalar_atoms_sql(column@, t1, start));
            } else {
                assert(scalar_atoms_sql(column@, t1, start) == scalar_atoms_sql(column@, t0, start)
                    + " OR "@ + scalar_atom_sql(
                    column@,
                    cl.atoms@[i as int],
                    start + scalar_atoms_binds(t0).len(),
                ));
                assert(qb.sql@ =~= sql0 + scalar_atoms_sql(column@, t1, start));
            }
        }
        i += 1;
    }
    proof {
        assert(cl.atoms@.take(cl.atoms@.len() as int) =~= cl.atoms@);
        if sparks@[0] >= 10 {
            sparks@.lemma_filter_contains(|v: i32| v >= 10, 0);
            assert(crate::spark::spec_specifics(sparks@).contains(sparks@[0]));
        } else {
            sparks@.lemma_filter_contains(|v: i32| v < 10, 0);
            assert(crate::spark::spec_wildcards(sparks@).contains(sparks@[0]));
        }
        assert(cl.atoms@.len() > 0);
    }
    qb.push(")");
    cl
}

} // verus!

verus! {

/// The ghost shape of a bound value: its kind and payload, with text
/// payloads abstracted to their character sequences.
pub enum BindView {
    VInt(i32),
    VBig(i64),
    VText(Seq<char>),
}

/// The view of one bound value.
pub open spec fn bind_view(b: BindValue) -> BindView {
    match b {
        BindValue::Int(v) => BindView::VInt(v),
        BindValue::BigInt(v) => BindView::VBig(v),
        BindValue::Text(s) => BindView::VText(s@),
    }
}

/// The views of a bind list.
pub open spec fn bind_views(bs: Seq<BindValue>) -> Seq<BindView> {
    bs.map_values(|b: BindValue| bind_view(b))
}

} // verus!
