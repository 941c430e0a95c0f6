//! Building SQL `WHERE` clauses from a filter: every value of a field is
//! one alternative, fields are combined by `and` (every combination of one
//! alternative per field), and the combinations are joined by `or`.

use vstd::prelude::*;
use crate::text::{decimal, u64_to_string};

verus! {

/// The characters of each string of a sequence.
pub open spec fn views(v: Seq<String>) -> Seq<Seq<char>> {
    v.map_values(|s: String| s@)
}

/// Every condition of `query` combined by `and` with every new condition;
/// the new conditions alone when `query` is empty.
pub open spec fn cross_and(query: Seq<Seq<char>>, new_filters: Seq<Seq<char>>) -> Seq<Seq<char>> {
    if query.len() == 0 {
        new_filters
    } else {
        Seq::new(
            query.len() * new_filters.len(),
            |k: int| query[k / (new_filters.len() as int)] + " and "@ + new_filters[k % (new_filters.len() as int)],
        )
    }
}

/// The conditions joined by ` or `.
pub open spec fn join_or(conds: Seq<Seq<char>>) -> Seq<char>
    decreases conds.len(),
{
    if conds.len() == 0 {
        Seq::empty()
    } else if conds.len() == 1 {
        conds[0]
    } else {
        join_or(conds.drop_last()) + " or "@ + conds.last()
    }
}

/// Each value put between `prefix` and `suffix`.
pub open spec fn wrapped(values: Seq<Seq<char>>, prefix: Seq<char>, suffix: Seq<char>) -> Seq<Seq<char>> {
    values.map_values(|v: Seq<char>| prefix + v + suffix)
}

/// `a`, `b` and `c` one after another.
pub fn concat3(a: &str, b: &str, c: &str) -> (r: String)
    ensures
        r@ == a@ + b@ + c@,
{
    let mut r = String::from_str(a);
    r.append(b);
    r.append(c);
    r
}

/// Every value put between `prefix` and `suffix`.
pub fn wrap_each(values: &Vec<String>, prefix: &str, suffix: &str) -> (r: Vec<String>)
    ensures
        views(r@) == wrapped(views(values@), prefix@, suffix@),
{
    let ghost target = wrapped(views(values@), prefix@, suffix@);
    let mut r: Vec<String> = Vec::new();
    let mut i: usize = 0;
    while i < values.len()
        invariant
            i <= values.len(),
            target == wrapped(views(values@), prefix@, suffix@),
            r@.len() == i,
            forall|k: int| 0 <= k < i ==> #[trigger] r@[k]@ == target[k],
        decreases values.len() - i,
    {
        let s = concat3(prefix, values[i].as_str(), suffix);
        r.push(s);
        i = i + 1;
    }
    assert(views(r@) =~= target);
    r
}

/// Every number, in decimal, put between `prefix` and `suffix`.
pub fn wrap_each_number(values: &Vec<u64>, prefix: &str, suffix: &str) -> (r: Vec<String>)
    ensures
        views(r@) == wrapped(values@.map_values(|v: u64| decimal(v as nat)), prefix@, suffix@),
{
    let ghost target = wrapped(values@.map_values(|v: u64| decimal(v as nat)), prefix@, suffix@);
    let mut r: Vec<String> = Vec::new();
    let mut i: usize = 0;
    while i < values.len()
        invariant
            i <= values.len(),
            target == wrapped(values@.map_values(|v: u64| decimal(v as nat)), prefix@, suffix@),
            r@.len() == i,
            forall|k: int| 0 <= k < i ==> #[trigger] r@[k]@ == target[k],
        decreases values.len() - i,
    {
        let d = u64_to_string(values[i]);
        let s = concat3(prefix, d.as_str(), suffix);
        r.push(s);
        i = i + 1;
    }
    assert(views(r@) =~= target);
    r
}

proof fn lemma_cross_index(qlen: int, flen: int, i: int, j: int)
    requires
        0 <= i < qlen,
        0 <= j < flen,
    ensures
        0 <= i * flen + j < qlen * flen,
        (i * flen + j) / flen == i,
        (i * flen + j) % flen == j,
{
    vstd::arithmetic::div_mod::lemma_fundamental_div_mod_converse(i * flen + j, flen, i, j);
    vstd::arithmetic::mul::lemma_mul_is_commutative(i, flen);
    assert(i * flen + j < qlen * flen) by (nonlinear_arith)
        requires 0 <= i < qlen, 0 <= j < flen;
    assert(0 <= i * flen) by (nonlinear_arith)
        requires 0 <= i, 0 <= flen;
}

/// Every condition of `query` combined by `and` with every new condition,
/// or the new conditions alone when `query` is empty.
pub fn build_where_clause(query: &Vec<String>, new_filters: &Vec<String>) -> (r: Vec<String>)
    ensures
        views(r@) == cross_and(views(query@), views(new_filters@)),
{
    if query.len() == 0 {
        let mut r: Vec<String> = Vec::new();
        let mut j: usize = 0;
        while j < new_filters.len()
            invariant
                j <= new_filters.len(),
                r@.len() == j,
                forall|k: int| 0 <= k < j ==> #[trigger] r@[k]@ == new_filters@[k]@,
            decreases new_filters.len() - j,
        {
            r.push(new_filters[j].clone());
            j = j + 1;
        }
        assert(views(r@) =~= views(new_filters@));
        return r;
    }
    let ghost q = views(query@);
    let ghost f = views(new_filters@);
    let ghost target = cross_and(q, f);
    let qlen = query.len();
    let flen = new_filters.len();
    let mut r: Vec<String> = Vec::new();
    let mut i: usize = 0;
    while i < qlen
        invariant
            qlen == query.len(),
            flen == new_filters.len(),
            qlen > 0,
            q == views(query@),
            f == views(new_filters@),
            target == cross_and(q, f),
            i <= qlen,
            r@.len() == i * flen,
            i * flen <= target.len(),
            forall|k: int| 0 <= k < i * flen ==> #[trigger] r@[k]@ == target[k],
        decreases qlen - i,
    {
        let mut j: usize = 0;
        while j < flen
            invariant
                qlen == query.len(),
                flen == new_filters.len(),
                qlen > 0,
                q == views(query@),
                f == views(new_filters@),
                target == cross_and(q, f),
                i < qlen,
                j <= flen,
                r@.len() == i * flen + j,
                i * flen + j <= target.len(),
                forall|k: int| 0 <= k < i * flen + j ==> #[trigger] r@[k]@ == target[k],
            decreases flen - j,
        {
            let s = concat3(query[i].as_str(), " and ", new_filters[j].as_str());
            proof {
                lemma_cross_index(qlen as int, flen as int, i as int, j as int);
                assert(target[i * flen + j] == q[i as int] + " and "@ + f[j as int]);
            }
            r.push(s);
            j = j + 1;
        }
        assert((i + 1) * flen == i * flen + flen) by (nonlinear_arith);
        i = i + 1;
    }
    assert(views(r@) =~= target);
    r
}

/// The conditions joined by ` or ` (the first one alone, then ` or ` and
/// each further one).
pub fn get_where_clause_of(conds: &Vec<String>) -> (r: String)
    ensures
        r@ == join_or(views(conds@)),
{
    let mut r = String::new();
    let mut i: usize = 0;
    while i < conds.len()
        invariant
            i <= conds.len(),
            r@ == join_or(views(conds@).take(i as int)),
        decreases conds.len() - i,
    {
        if i == 0 {
            r.append(conds[i].as_str());
        } else {
            r.append(" or ");
            r.append(conds[i].as_str());
        }
        proof {
            let t = views(conds@).take(i + 1);
            assert(t.drop_last() =~= views(conds@).take(i as int));
            if i == 0 {
                assert(views(conds@).take(0) =~= Seq::<Seq<char>>::empty());
            }
        }
        i = i + 1;
    }
    assert(views(conds@).take(i as int) =~= views(conds@));
    r
}

/// With at least one earlier condition, the combination holds one
/// condition for each pair of an earlier and a new condition.
pub proof fn law_cross_and_len(query: Seq<Seq<char>>, new_filters: Seq<Seq<char>>)
    requires
        query.len() > 0,
    ensures
        cross_and(query, new_filters).len() == query.len() * new_filters.len(),
{
}

/// The order in which conditions are combined: with at least one earlier
/// condition, position `i * f + j` holds earlier condition `i` and new
/// condition `j` (`f` new conditions), so earlier fields vary slowest and
/// each list keeps its given order. A filter's alternatives are combined
/// this way field by field: category, cluster id, data source, detector
/// id, status, qualifier.
pub proof fn law_cross_and_order(query: Seq<Seq<char>>, new_filters: Seq<Seq<char>>, i: int, j: int)
    requires
        0 <= i < query.len(),
        0 <= j < new_filters.len(),
    ensures
        0 <= i * new_filters.len() + j < cross_and(query, new_filters).len(),
        cross_and(query, new_filters)[i * new_filters.len() + j] == query[i] + " and "@ + new_filters[j],
{
    lemma_cross_index(query.len() as int, new_filters.len() as int, i, j);
}

/// The database layout a clause is written for: the `clusters` table of
/// the first central repository, or the `cluster` table of reviewd.
#[derive(Clone, Copy, Debug, PartialEq, Eq, Structural)]
pub enum Schema {
    Clusters,
    Cluster,
}

/// A field of a cluster filter.
#[derive(Clone, Copy, Debug, PartialEq, Eq, Structural)]
pub enum Field {
    Category,
    ClusterId,
    DataSource,
    DetectorId,
    Status,
    Qualifier,
}

/// The text before a filter value in its condition.
pub open spec fn prefix_of(schema: Schema, field: Field) -> Seq<char> {
    match (schema, field) {
        (Schema::Clusters, Field::Category) => "Clusters.category_id = (SELECT category_id FROM category WHERE category = '"@,
        (Schema::Clusters, Field::ClusterId) => "cluster_id='"@,
        (Schema::Clusters, Field::DataSource) => "data_source='"@,
        (Schema::Clusters, Field::DetectorId) => "detector_id='"@,
        (Schema::Clusters, Field::Status) => "Clusters.status_id = (SELECT status_id FROM status WHERE status = '"@,
        (Schema::Clusters, Field::Qualifier) => "Clusters.qualifier_id = (SELECT qualifier_id FROM qualifier WHERE qualifier = '"@,
        (Schema::Cluster, Field::Category) => "Cluster.category_id = (SELECT id FROM category WHERE name = '"@,
        (Schema::Cluster, Field::ClusterId) => "cluster_id='"@,
        (Schema::Cluster, Field::DataSource) => "Cluster.data_source_id = (SELECT id FROM data_source WHERE topic_name = '"@,
        (Schema::Cluster, Field::DetectorId) => "detector_id='"@,
        (Schema::Cluster, Field::Status) => "Cluster.status_id = (SELECT id FROM status WHERE description = '"@,
        (Schema::Cluster, Field::Qualifier) => "Cluster.qualifier_id = (SELECT id FROM qualifier WHERE description = '"@,
    }
}

/// The text after a filter value in its condition.
pub open spec fn suffix_of(field: Field) -> Seq<char> {
    match field {
        Field::Category | Field::DataSource | Field::Status | Field::Qualifier => "')"@,
        Field::ClusterId | Field::DetectorId => "'"@,
    }
}

/// The text before a filter value in its condition.
pub fn prefix(schema: Schema, field: Field) -> (r: &'static str)
    ensures
        r@ == prefix_of(schema, field),
{
    match (schema, field) {
        (Schema::Clusters, Field::Category) => "Clusters.category_id = (SELECT category_id FROM category WHERE category = '",
        (Schema::Clusters, Field::ClusterId) => "cluster_id='",
        (Schema::Clusters, Field::DataSource) => "data_source='",
        (Schema::Clusters, Field::DetectorId) => "detector_id='",
        (Schema::Clusters, Field::Status) => "Clusters.status_id = (SELECT status_id FROM status WHERE status = '",
        (Schema::Clusters, Field::Qualifier) => "Clusters.qualifier_id = (SELECT qualifier_id FROM qualifier WHERE qualifier = '",
        (Schema::Cluster, Field::Category) => "Cluster.category_id = (SELECT id FROM category WHERE name = '",
        (Schema::Cluster, Field::ClusterId) => "cluster_id='",
        (Schema::Cluster, Field::DataSource) => "Cluster.data_source_id = (SELECT id FROM data_source WHERE topic_name = '",
        (Schema::Cluster, Field::DetectorId) => "detector_id='",
        (Schema::Cluster, Field::Status) => "Cluster.status_id = (SELECT id FROM status WHERE description = '",
        (Schema::Cluster, Field::Qualifier) => "Cluster.qualifier_id = (SELECT id FROM qualifier WHERE description = '",
    }
}

/// The text after a filter value in its condition.
pub fn suffix(field: Field) -> (r: &'static str)
    ensures
        r@ == suffix_of(field),
{
    match field {
        Field::Category | Field::DataSource | Field::Status | Field::Qualifier => "')",
        Field::ClusterId | Field::DetectorId => "'",
    }
}

/// The text after a filter value in its condition, in a layout: the
/// conditions that look the value up in another table close its
/// sub-query, the others only the quote. In the `clusters` layout a data
/// source is compared directly.
pub open spec fn suffix_in_spec(schema: Schema, field: Field) -> Seq<char> {
    match (schema, field) {
        (Schema::Clusters, Field::DataSource) => "'"@,
        _ => suffix_of(field),
    }
}

/// The text after a filter value in its condition, in a layout.
pub fn suffix_in(schema: Schema, field: Field) -> (r: &'static str)
    ensures
        r@ == suffix_in_spec(schema, field),
{
    match (schema, field) {
        (Schema::Clusters, Field::DataSource) => "'",
        _ => suffix(field),
    }
}

/// The values a request filters clusters by; a field that is absent does
/// not restrict the result.
pub struct Filter {
    pub category: Option<Vec<String>>,
    pub data_source: Option<Vec<String>>,
    pub status: Option<Vec<String>>,
    pub qualifier: Option<Vec<String>>,
    pub cluster_id: Option<Vec<String>>,
    pub detector_id: Option<Vec<u64>>,
}

/// The conditions of one text field, when it is given.
pub open spec fn field_conditions(values: Option<Vec<String>>, schema: Schema, field: Field) -> Option<Seq<Seq<char>>> {
    match values {
        Some(v) => Some(wrapped(views(v@), prefix_of(schema, field), suffix_in_spec(schema, field))),
        None => None,
    }
}

/// `query` combined with the conditions of a field, or unchanged when the
/// field is absent.
pub open spec fn and_field(query: Seq<Seq<char>>, conds: Option<Seq<Seq<char>>>) -> Seq<Seq<char>> {
    match conds {
        Some(c) => cross_and(query, c),
        None => query,
    }
}

/// The alternatives of a filter: category, then cluster id, data source,
/// detector id, status and qualifier, each present field combined by `and`
/// with what came before.
pub open spec fn query_spec(f: Filter, schema: Schema) -> Seq<Seq<char>> {
    let q0 = match field_conditions(f.category, schema, Field::Category) {
        Some(c) => c,
        None => Seq::empty(),
    };
    let q1 = and_field(q0, field_conditions(f.cluster_id, schema, Field::ClusterId));
    let q2 = and_field(q1, field_conditions(f.data_source, schema, Field::DataSource));
    let q3 = and_field(q2, match f.detector_id {
        Some(v) => Some(wrapped(v@.map_values(|d: u64| decimal(d as nat)), prefix_of(schema, Field::DetectorId), suffix_of(Field::DetectorId))),
        None => None,
    });
    let q4 = and_field(q3, field_conditions(f.status, schema, Field::Status));
    and_field(q4, field_conditions(f.qualifier, schema, Field::Qualifier))
}

/// `query` combined with the conditions of a text field.
fn and_text_field(query: Vec<String>, values: &Option<Vec<String>>, schema: Schema, field: Field) -> (r: Vec<String>)
    ensures
        views(r@) == and_field(views(query@), field_conditions(*values, schema, field)),
{
    match values {
        Some(v) => {
            let conds = wrap_each(v, prefix(schema, field), suffix_in(schema, field));
            build_where_clause(&query, &conds)
        },
        None => query,
    }
}

impl Filter {
    /// The alternatives of the filter, each a conjunction of one condition
    /// per present field.
    pub fn query_builder(&self, schema: Schema) -> (r: Vec<String>)
        ensures
            views(r@) == query_spec(*self, schema),
    {
        let query: Vec<String> = match &self.category {
            Some(c) => wrap_each(c, prefix(schema, Field::Category), suffix_in(schema, Field::Category)),
            None => {
                let e: Vec<String> = Vec::new();
                assert(views(e@) =~= Seq::<Seq<char>>::empty());
                e
            },
        };
        let query = and_text_field(query, &self.cluster_id, schema, Field::ClusterId);
        let query = and_text_field(query, &self.data_source, schema, Field::DataSource);
        let query = match &self.detector_id {
            Some(d) => {
                let conds = wrap_each_number(d, prefix(schema, Field::DetectorId), suffix(Field::DetectorId));
                build_where_clause(&query, &conds)
            },
            None => query,
        };
        let query = and_text_field(query, &self.status, schema, Field::Status);
        and_text_field(query, &self.qualifier, schema, Field::Qualifier)
    }

    /// The `WHERE` clause of the filter: its alternatives joined by `or`
    /// (empty when the filter has none).
    pub fn get_where_clause(&self, schema: Schema) -> (r: String)
        ensures
            r@ == join_or(query_spec(*self, schema)),
    {
        let conds = self.query_builder(schema);
        get_where_clause_of(&conds)
    }
}

/// The number of values of a field, when it is given.
pub open spec fn count_of<T>(values: Option<Vec<T>>) -> Option<nat> {
    match values {
        Some(v) => Some(v@.len()),
        None => None,
    }
}

/// A running product that is absent until the first given count.
pub open spec fn times(acc: Option<nat>, n: Option<nat>) -> Option<nat> {
    match n {
        None => acc,
        Some(k) => match acc {
            None => Some(k),
            Some(a) => Some(a * k),
        },
    }
}

/// The product of the numbers of values of the given fields; 0 when no
/// field is given.
pub open spec fn filter_product(f: Filter) -> nat {
    let p = times(times(times(times(times(count_of(f.category), count_of(f.cluster_id)), count_of(f.data_source)),
        count_of(f.detector_id)), count_of(f.status)), count_of(f.qualifier));
    match p {
        Some(n) => n,
        None => 0,
    }
}

/// Every field that is given has at least one value.
pub open spec fn given_fields_nonempty(f: Filter) -> bool {
    &&& f.category matches Some(v) ==> v@.len() > 0
    &&& f.cluster_id matches Some(v) ==> v@.len() > 0
    &&& f.data_source matches Some(v) ==> v@.len() > 0
    &&& f.detector_id matches Some(v) ==> v@.len() > 0
    &&& f.status matches Some(v) ==> v@.len() > 0
    &&& f.qualifier matches Some(v) ==> v@.len() > 0
}

/// A list of alternatives counted by a running product: empty while the
/// product is absent, else as long as the (positive) product.
pub open spec fn counted(q: Seq<Seq<char>>, acc: Option<nat>) -> bool {
    match acc {
        None => q.len() == 0,
        Some(p) => p > 0 && q.len() == p,
    }
}

proof fn lemma_and_field_counted(q: Seq<Seq<char>>, c: Option<Seq<Seq<char>>>, acc: Option<nat>)
    requires
        counted(q, acc),
        c matches Some(cs) ==> cs.len() > 0,
    ensures
        counted(and_field(q, c), times(acc, match c { Some(cs) => Some(cs.len()), None => None })),
{
    if let Some(cs) = c {
        if let Some(p) = acc {
            assert(p * cs.len() > 0) by (nonlinear_arith)
                requires p > 0, cs.len() > 0;
        }
    }
}

/// When every given field has values, a filter has as many alternatives
/// as the product of the numbers of values of its given fields (none when
/// no field is given).
pub proof fn law_alternatives_product(f: Filter, schema: Schema)
    requires
        given_fields_nonempty(f),
    ensures
        query_spec(f, schema).len() == filter_product(f),
{
    let c0 = field_conditions(f.category, schema, Field::Category);
    let q0 = match c0 { Some(c) => c, None => Seq::empty() };
    lemma_and_field_counted(Seq::empty(), c0, None);
    assert(and_field(Seq::empty(), c0) == q0);
    let a0 = count_of(f.category);
    let c1 = field_conditions(f.cluster_id, schema, Field::ClusterId);
    lemma_and_field_counted(q0, c1, a0);
    let q1 = and_field(q0, c1);
    let a1 = times(a0, count_of(f.cluster_id));
    let c2 = field_conditions(f.data_source, schema, Field::DataSource);
    lemma_and_field_counted(q1, c2, a1);
    let q2 = and_field(q1, c2);
    let a2 = times(a1, count_of(f.data_source));
    let c3: Option<Seq<Seq<char>>> = match f.detector_id {
        Some(v) => Some(wrapped(v@.map_values(|d: u64| decimal(d as nat)), prefix_of(schema, Field::DetectorId), suffix_of(Field::DetectorId))),
        None => None,
    };
    lemma_and_field_counted(q2, c3, a2);
    let q3 = and_field(q2, c3);
    let a3 = times(a2, count_of(f.detector_id));
    let c4 = field_conditions(f.status, schema, Field::Status);
    lemma_and_field_counted(q3, c4, a3);
    let q4 = and_field(q3, c4);
    let a4 = times(a3, count_of(f.status));
    let c5 = field_conditions(f.qualifier, schema, Field::Qualifier);
    lemma_and_field_counted(q4, c5, a4);
}

/// The condition a filter value puts on clusters, written out for each
/// layout and field.
pub open spec fn field_condition(schema: Schema, field: Field, v: Seq<char>) -> Seq<char> {
    match (schema, field) {
        (Schema::Clusters, Field::Category) => "Clusters.category_id = (SELECT category_id FROM category WHERE category = '"@ + v + "')"@,
        (Schema::Clusters, Field::ClusterId) => "cluster_id='"@ + v + "'"@,
        (Schema::Clusters, Field::DataSource) => "data_source='"@ + v + "'"@,
        (Schema::Clusters, Field::DetectorId) => "detector_id='"@ + v + "'"@,
        (Schema::Clusters, Field::Status) => "Clusters.status_id = (SELECT status_id FROM status WHERE status = '"@ + v + "')"@,
        (Schema::Clusters, Field::Qualifier) => "Clusters.qualifier_id = (SELECT qualifier_id FROM qualifier WHERE qualifier = '"@ + v + "')"@,
        (Schema::Cluster, Field::Category) => "Cluster.category_id = (SELECT id FROM category WHERE name = '"@ + v + "')"@,
        (Schema::Cluster, Field::ClusterId) => "cluster_id='"@ + v + "'"@,
        (Schema::Cluster, Field::DataSource) => "Cluster.data_source_id = (SELECT id FROM data_source WHERE topic_name = '"@ + v + "')"@,
        (Schema::Cluster, Field::DetectorId) => "detector_id='"@ + v + "'"@,
        (Schema::Cluster, Field::Status) => "Cluster.status_id = (SELECT id FROM status WHERE description = '"@ + v + "')"@,
        (Schema::Cluster, Field::Qualifier) => "Cluster.qualifier_id = (SELECT id FROM qualifier WHERE description = '"@ + v + "')"@,
    }
}

/// A filter value of a field becomes that field's condition: a category,
/// status or qualifier is looked up in its own table, a cluster id, data
/// source or detector id compared directly.
pub proof fn law_field_condition(schema: Schema, field: Field, v: Seq<char>)
    ensures
        prefix_of(schema, field) + v + suffix_in_spec(schema, field) == field_condition(schema, field, v),
{
    let p = prefix_of(schema, field);
    let x = suffix_in_spec(schema, field);
    assert(p + v + x =~= field_condition(schema, field, v)) by {
        match (schema, field) {
            (Schema::Clusters, Field::Category) => {},
            (Schema::Clusters, Field::ClusterId) => {},
            (Schema::Clusters, Field::DataSource) => {},
            (Schema::Clusters, Field::DetectorId) => {},
            (Schema::Clusters, Field::Status) => {},
            (Schema::Clusters, Field::Qualifier) => {},
            (Schema::Cluster, Field::Category) => {},
            (Schema::Cluster, Field::ClusterId) => {},
            (Schema::Cluster, Field::DataSource) => {},
            (Schema::Cluster, Field::DetectorId) => {},
            (Schema::Cluster, Field::Status) => {},
            (Schema::Cluster, Field::Qualifier) => {},
        }
    }
}

/// A filter that gives only one text field has one alternative per value,
/// in order, each that field's condition on the value.
pub proof fn law_single_field_filter(f: Filter, schema: Schema, field: Field, values: Vec<String>)
    requires
        field != Field::DetectorId,
        f.detector_id is None,
        f.category == (if field == Field::Category { Some(values) } else { None }),
        f.cluster_id == (if field == Field::ClusterId { Some(values) } else { None }),
        f.data_source == (if field == Field::DataSource { Some(values) } else { None }),
        f.status == (if field == Field::Status { Some(values) } else { None }),
        f.qualifier == (if field == Field::Qualifier { Some(values) } else { None }),
    ensures
        query_spec(f, schema).len() == values@.len(),
        forall|k: int| 0 <= k < values@.len() ==> #[trigger] query_spec(f, schema)[k] == field_condition(schema, field, values@[k]@),
{
    assert forall|k: int| 0 <= k < values@.len() implies #[trigger] query_spec(f, schema)[k] == field_condition(schema, field, values@[k]@) by {
        law_field_condition(schema, field, values@[k]@);
    }
}

/// A filter that gives only detector ids has one alternative per id, in
/// order, each comparing the detector id with the id in decimal.
pub proof fn law_detector_filter(f: Filter, schema: Schema, ids: Vec<u64>)
    requires
        f.detector_id == Some(ids),
        f.category is None,
        f.cluster_id is None,
        f.data_source is None,
        f.status is None,
        f.qualifier is None,
    ensures
        query_spec(f, schema).len() == ids@.len(),
        forall|k: int| 0 <= k < ids@.len() ==> #[trigger] query_spec(f, schema)[k] == "detector_id='"@ + decimal(ids@[k] as nat) + "'"@,
{
    assert forall|k: int| 0 <= k < ids@.len() implies #[trigger] query_spec(f, schema)[k] == "detector_id='"@ + decimal(ids@[k] as nat) + "'"@ by {
        law_field_condition(schema, Field::DetectorId, decimal(ids@[k] as nat));
    }
}

} // verus!
