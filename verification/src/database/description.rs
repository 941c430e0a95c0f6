//! Storing the column descriptions of clusters: each described column of
//! a known cluster becomes a row with a temporary serial id, under which
//! its statistics and top values are stored until the database assigns
//! the real id.

use vstd::prelude::*;
use crate::text::{decimal, str_eq, u64_to_string};

verus! {

/// The largest `i32`, as a `usize`.
pub const MAX_VALUE_OF_I32_USIZE: usize = 2_147_483_647;

/// A count as an `i64`, capped at the largest `i64`.
pub open spec fn capped(v: usize) -> i64 {
    if v > i64::MAX { i64::MAX } else { v as i64 }
}

/// A count as an `i64`, capped at the largest `i64`.
pub fn safe_cast_usize_to_i64(value: usize) -> (r: i64)
    ensures
        r == capped(value),
{
    if value as u64 > i64::MAX as u64 {
        i64::MAX
    } else {
        value as i64
    }
}

/// The kind of value a column's mode is.
#[derive(Clone, Copy, Debug, PartialEq, Eq, Structural)]
pub enum ElementKind {
    Int,
    UInt,
    Enum,
    Float,
    FloatRange,
    Text,
    IpAddr,
    DateTime,
}

/// The type id a column is stored with, by the kind of its mode; columns
/// without a mode, or with a single float as mode, are not stored.
pub open spec fn type_id_spec(mode: Option<ElementKind>) -> Option<i32> {
    match mode {
        Some(ElementKind::Int) => Some(1),
        Some(ElementKind::Enum) => Some(2),
        Some(ElementKind::FloatRange) => Some(3),
        Some(ElementKind::Text) => Some(4),
        Some(ElementKind::IpAddr) => Some(5),
        Some(ElementKind::DateTime) => Some(6),
        _ => None,
    }
}

/// The type id a column is stored with.
pub fn type_id(mode: Option<ElementKind>) -> (r: Option<i32>)
    ensures
        r == type_id_spec(mode),
{
    match mode {
        Some(ElementKind::Int) => Some(1),
        Some(ElementKind::Enum) => Some(2),
        Some(ElementKind::FloatRange) => Some(3),
        Some(ElementKind::Text) => Some(4),
        Some(ElementKind::IpAddr) => Some(5),
        Some(ElementKind::DateTime) => Some(6),
        _ => None,
    }
}

/// The type id reviewd stores a column with, by the kind of its mode
/// (there unsigned integers take the id that enumerations take here);
/// columns without a mode, or with a single float as mode, are not stored.
pub open spec fn reviewd_type_id_spec(mode: Option<ElementKind>) -> Option<i32> {
    match mode {
        Some(ElementKind::Int) => Some(1),
        Some(ElementKind::UInt) => Some(2),
        Some(ElementKind::FloatRange) => Some(3),
        Some(ElementKind::Text) => Some(4),
        Some(ElementKind::IpAddr) => Some(5),
        Some(ElementKind::DateTime) => Some(6),
        _ => None,
    }
}

/// The type id reviewd stores a column with.
pub fn reviewd_type_id(mode: Option<ElementKind>) -> (r: Option<i32>)
    ensures
        r == reviewd_type_id_spec(mode),
{
    match mode {
        Some(ElementKind::Int) => Some(1),
        Some(ElementKind::UInt) => Some(2),
        Some(ElementKind::FloatRange) => Some(3),
        Some(ElementKind::Text) => Some(4),
        Some(ElementKind::IpAddr) => Some(5),
        Some(ElementKind::DateTime) => Some(6),
        _ => None,
    }
}

/// What the storing reads of one column description.
pub struct ColumnSummary {
    pub mode: Option<ElementKind>,
    pub count: usize,
    pub unique_count: usize,
}

/// The descriptions of the columns of one cluster over a range of events;
/// `cluster_id` is the database id of the cluster, `None` when it is not
/// stored.
pub struct ClusterDescriptions {
    pub cluster_id: Option<i32>,
    pub first_event_id: Option<u64>,
    pub last_event_id: Option<u64>,
    pub columns: Vec<ColumnSummary>,
}

/// A column description row, under its temporary serial id.
pub struct ColumnDescriptionRow {
    pub id: i32,
    pub cluster_id: i32,
    pub first_event_id: String,
    pub last_event_id: String,
    pub column_index: i32,
    pub type_id: i32,
    pub count: i64,
    pub unique_count: i64,
}

/// A column description row as plain values.
pub struct RowSpec {
    pub id: int,
    pub cluster_id: i32,
    pub first_event_id: Seq<char>,
    pub last_event_id: Seq<char>,
    pub column_index: int,
    pub type_id: i32,
    pub count: i64,
    pub unique_count: i64,
}

pub open spec fn row_view(r: ColumnDescriptionRow) -> RowSpec {
    RowSpec {
        id: r.id as int,
        cluster_id: r.cluster_id,
        first_event_id: r.first_event_id@,
        last_event_id: r.last_event_id@,
        column_index: r.column_index as int,
        type_id: r.type_id,
        count: r.count,
        unique_count: r.unique_count,
    }
}

/// The rows of the first `k` columns of a stored cluster whose serial ids
/// follow `serial`, and the last serial id used. Every column with a
/// stored kind of mode takes a serial id; it gets a row only when the
/// event range is known and its index fits in an `i32`.
pub open spec fn column_rows(c: ClusterDescriptions, cluster_id: i32, serial: int, k: int) -> (Seq<RowSpec>, int)
    decreases k,
{
    if k <= 0 {
        (Seq::empty(), serial)
    } else {
        let (rows, s) = column_rows(c, cluster_id, serial, k - 1);
        let col = c.columns@[k - 1];
        match type_id_spec(col.mode) {
            None => (rows, s),
            Some(t) => match (c.first_event_id, c.last_event_id) {
                (Some(first), Some(last)) => if k - 1 <= MAX_VALUE_OF_I32_USIZE {
                    (rows.push(RowSpec {
                        id: s + 1,
                        cluster_id,
                        first_event_id: decimal(first as nat),
                        last_event_id: decimal(last as nat),
                        column_index: k - 1,
                        type_id: t,
                        count: capped(col.count),
                        unique_count: capped(col.unique_count),
                    }), s + 1)
                } else {
                    (rows, s + 1)
                },
                _ => (rows, s + 1),
            },
        }
    }
}

/// The rows of the first `k` clusters, and the last serial id used;
/// clusters that are not stored are skipped.
pub open spec fn plan_spec(cs: Seq<ClusterDescriptions>, k: int) -> (Seq<RowSpec>, int)
    decreases k,
{
    if k <= 0 {
        (Seq::empty(), 0)
    } else {
        let (rows, s) = plan_spec(cs, k - 1);
        match cs[k - 1].cluster_id {
            None => (rows, s),
            Some(id) => {
                let (more, s2) = column_rows(cs[k - 1], id, s, cs[k - 1].columns@.len() as int);
                (rows + more, s2)
            },
        }
    }
}

proof fn lemma_column_rows_serial_grows(c: ClusterDescriptions, cluster_id: i32, serial: int, k: int)
    ensures
        column_rows(c, cluster_id, serial, k).1 >= serial,
        k >= 0 ==> column_rows(c, cluster_id, serial, k).1 <= serial + k,
    decreases k,
{
    if k > 0 {
        lemma_column_rows_serial_grows(c, cluster_id, serial, k - 1);
    }
}

/// The column description rows of clusters, with consecutive serial ids
/// from 1 on over the described columns of stored clusters (a column
/// whose event range is unknown still takes its serial id).
pub fn column_description_rows(clusters: &Vec<ClusterDescriptions>) -> (r: Vec<ColumnDescriptionRow>)
    requires
        plan_spec(clusters@, clusters@.len() as int).1 <= i32::MAX,
    ensures
        r@.map_values(|x: ColumnDescriptionRow| row_view(x)) == plan_spec(clusters@, clusters@.len() as int).0,
{
    let mut out: Vec<ColumnDescriptionRow> = Vec::new();
    let mut serial: i32 = 0;
    let mut i: usize = 0;
    while i < clusters.len()
        invariant
            i <= clusters@.len(),
            plan_spec(clusters@, clusters@.len() as int).1 <= i32::MAX,
            out@.map_values(|x: ColumnDescriptionRow| row_view(x)) == plan_spec(clusters@, i as int).0,
            serial == plan_spec(clusters@, i as int).1,
            0 <= serial,
        decreases clusters@.len() - i,
    {
        let c = &clusters[i];
        proof {
            lemma_plan_mono(clusters@, i + 1, clusters@.len() as int);
        }
        if let Some(cid) = c.cluster_id {
            let ghost base = out@.map_values(|x: ColumnDescriptionRow| row_view(x));
            let ghost start = serial as int;
            let mut k: usize = 0;
            while k < c.columns.len()
                invariant
                    i < clusters@.len(),
                    *c == clusters@[i as int],
                    c.cluster_id == Some(cid),
                    k <= c.columns@.len(),
                    start == plan_spec(clusters@, i as int).1,
                    column_rows(*c, cid, start, c.columns@.len() as int).1 <= i32::MAX,
                    out@.map_values(|x: ColumnDescriptionRow| row_view(x)) == base + column_rows(*c, cid, start, k as int).0,
                    serial == column_rows(*c, cid, start, k as int).1,
                    serial >= 0,
                decreases c.columns@.len() - k,
            {
                let col = &c.columns[k];
                let ghost prev = out@.map_values(|x: ColumnDescriptionRow| row_view(x));
                proof {
                    lemma_column_rows_mono(*c, cid, start, k + 1, c.columns@.len() as int);
                    lemma_column_rows_serial_grows(*c, cid, start, k as int);
                }
                match type_id(col.mode) {
                    None => {},
                    Some(t) => {
                        serial = serial + 1;
                        match (c.first_event_id, c.last_event_id) {
                            (Some(first), Some(last)) => if k <= MAX_VALUE_OF_I32_USIZE {
                                out.push(ColumnDescriptionRow {
                                    id: serial,
                                    cluster_id: cid,
                                    first_event_id: u64_to_string(first),
                                    last_event_id: u64_to_string(last),
                                    column_index: k as i32,
                                    type_id: t,
                                    count: safe_cast_usize_to_i64(col.count),
                                    unique_count: safe_cast_usize_to_i64(col.unique_count),
                                });
                                assert(out@.map_values(|x: ColumnDescriptionRow| row_view(x)) =~= prev.push(row_view(out@.last())));
                            },
                            _ => {},
                        }
                    },
                }
                k = k + 1;
                assert(out@.map_values(|x: ColumnDescriptionRow| row_view(x)) =~= base + column_rows(*c, cid, start, k as int).0);
            }
        }
        i = i + 1;
    }
    out
}

proof fn lemma_column_rows_mono(c: ClusterDescriptions, cluster_id: i32, serial: int, a: int, b: int)
    requires
        0 <= a <= b,
    ensures
        column_rows(c, cluster_id, serial, a).1 <= column_rows(c, cluster_id, serial, b).1,
    decreases b - a,
{
    if a < b {
        lemma_column_rows_mono(c, cluster_id, serial, a, b - 1);
    }
}

proof fn lemma_plan_mono(cs: Seq<ClusterDescriptions>, a: int, b: int)
    requires
        0 <= a <= b,
    ensures
        plan_spec(cs, a).1 <= plan_spec(cs, b).1,
    decreases b - a,
{
    if a < b {
        lemma_plan_mono(cs, a, b - 1);
        if let Some(id) = cs[b - 1].cluster_id {
            lemma_column_rows_serial_grows(cs[b - 1], id, plan_spec(cs, b - 1).1, cs[b - 1].columns@.len() as int);
        }
    }
}

/// Two rows describe the same column over the same events.
pub open spec fn same_column(a: RowSpec, b: RowSpec) -> bool {
    &&& a.cluster_id == b.cluster_id
    &&& a.first_event_id == b.first_event_id
    &&& a.last_event_id == b.last_event_id
    &&& a.column_index == b.column_index
}

/// The index of the last row of `rows` among the first `k` that
/// satisfies `p`, if any.
pub open spec fn last_index(rows: Seq<RowSpec>, p: spec_fn(RowSpec) -> bool, k: int) -> Option<int>
    decreases k,
{
    if k <= 0 {
        None
    } else if p(rows[k - 1]) {
        Some(k - 1)
    } else {
        last_index(rows, p, k - 1)
    }
}

/// The database id that replaces the serial id `serial`: the row stored
/// under `serial` (the last one, should there be several) is looked up
/// among the stored rows by its cluster, event range and column, and the
/// id of the last stored row that matches is taken. `None` where either
/// lookup fails.
pub open spec fn db_id_spec(rows: Seq<RowSpec>, stored: Seq<RowSpec>, serial: int) -> Option<int> {
    match last_index(rows, |r: RowSpec| r.id == serial, rows.len() as int) {
        None => None,
        Some(i) => match last_index(stored, |r: RowSpec| same_column(r, rows[i]), stored.len() as int) {
            None => None,
            Some(j) => Some(stored[j].id),
        },
    }
}

fn same_column_rows(a: &ColumnDescriptionRow, b: &ColumnDescriptionRow) -> (r: bool)
    ensures
        r == same_column(row_view(*a), row_view(*b)),
{
    a.cluster_id == b.cluster_id && str_eq(a.first_event_id.as_str(), b.first_event_id.as_str())
        && str_eq(a.last_event_id.as_str(), b.last_event_id.as_str())
        && a.column_index == b.column_index
}

/// The database id that replaces a serial id, once the rows made under
/// serial ids have been stored and handed back with their database ids.
pub fn db_description_id(
    rows: &Vec<ColumnDescriptionRow>,
    stored: &Vec<ColumnDescriptionRow>,
    serial: i32,
) -> (r: Option<i32>)
    ensures
        r matches Some(v) ==> db_id_spec(rows@.map_values(|x: ColumnDescriptionRow| row_view(x)),
            stored@.map_values(|x: ColumnDescriptionRow| row_view(x)), serial as int) == Some(v as int),
        r is None ==> db_id_spec(rows@.map_values(|x: ColumnDescriptionRow| row_view(x)),
            stored@.map_values(|x: ColumnDescriptionRow| row_view(x)), serial as int) is None,
{
    let ghost rs = rows@.map_values(|x: ColumnDescriptionRow| row_view(x));
    let ghost ss = stored@.map_values(|x: ColumnDescriptionRow| row_view(x));
    let ghost by_id = |r: RowSpec| r.id == serial as int;
    let mut i: usize = rows.len();
    while i > 0 && rows[i - 1].id != serial
        invariant
            i <= rows@.len(),
            rs == rows@.map_values(|x: ColumnDescriptionRow| row_view(x)),
            by_id == (|r: RowSpec| r.id == serial as int),
            last_index(rs, by_id, rs.len() as int) == last_index(rs, by_id, i as int),
        decreases i,
    {
        i = i - 1;
    }
    if i == 0 {
        return None;
    }
    let row = &rows[i - 1];
    proof {
        assert(rs[i - 1] == row_view(rows@[i - 1]));
        assert(by_id(rs[i - 1]));
        assert(last_index(rs, by_id, i as int) == Some(i - 1));
    }
    let ghost by_col = |r: RowSpec| same_column(r, rs[i - 1]);
    let mut j: usize = stored.len();
    while j > 0 && !same_column_rows(&stored[j - 1], row)
        invariant
            j <= stored@.len(),
            ss == stored@.map_values(|x: ColumnDescriptionRow| row_view(x)),
            i >= 1,
            i <= rows@.len(),
            rs == rows@.map_values(|x: ColumnDescriptionRow| row_view(x)),
            *row == rows@[i - 1],
            by_col == (|r: RowSpec| same_column(r, rs[i - 1])),
            last_index(ss, by_col, ss.len() as int) == last_index(ss, by_col, j as int),
        decreases j,
    {
        j = j - 1;
    }
    if j == 0 {
        return None;
    }
    proof {
        assert(ss[j - 1] == row_view(stored@[j - 1]));
        assert(by_col(ss[j - 1]));
        assert(last_index(ss, by_col, j as int) == Some(j - 1));
    }
    Some(stored[j - 1].id)
}

/// The rank and count of each top value of a column: ranks from 1, both
/// capped at the largest `i64`.
pub fn top_n_rankings(counts: &Vec<usize>) -> (r: Vec<(i64, i64)>)
    requires
        counts@.len() < usize::MAX,
    ensures
        r@.len() == counts@.len(),
        forall|k: int| 0 <= k < counts@.len() ==> #[trigger] r@[k] == (capped((k + 1) as usize), capped(counts@[k])),
{
    let mut r: Vec<(i64, i64)> = Vec::new();
    let mut k: usize = 0;
    while k < counts.len()
        invariant
            k <= counts@.len(),
            counts@.len() < usize::MAX,
            r@.len() == k,
            forall|m: int| 0 <= m < k ==> #[trigger] r@[m] == (capped((m + 1) as usize), capped(counts@[m])),
        decreases counts@.len() - k,
    {
        r.push((safe_cast_usize_to_i64(k + 1), safe_cast_usize_to_i64(counts[k])));
        k = k + 1;
    }
    r
}


/// The kind of mode of a stored column, by its type id; `None` for an id
/// that no kind is stored with.
pub open spec fn kind_of_type_id_spec(type_id: i32) -> Option<ElementKind> {
    if type_id == 1 {
        Some(ElementKind::Int)
    } else if type_id == 2 {
        Some(ElementKind::Enum)
    } else if type_id == 3 {
        Some(ElementKind::FloatRange)
    } else if type_id == 4 {
        Some(ElementKind::Text)
    } else if type_id == 5 {
        Some(ElementKind::IpAddr)
    } else if type_id == 6 {
        Some(ElementKind::DateTime)
    } else {
        None
    }
}

/// The kind of mode a stored column is read back as.
pub fn kind_of_type_id(type_id: i32) -> (r: Option<ElementKind>)
    ensures
        r == kind_of_type_id_spec(type_id),
{
    if type_id == 1 {
        Some(ElementKind::Int)
    } else if type_id == 2 {
        Some(ElementKind::Enum)
    } else if type_id == 3 {
        Some(ElementKind::FloatRange)
    } else if type_id == 4 {
        Some(ElementKind::Text)
    } else if type_id == 5 {
        Some(ElementKind::IpAddr)
    } else if type_id == 6 {
        Some(ElementKind::DateTime)
    } else {
        None
    }
}

/// A column stored under the type id of its mode's kind is read back with
/// that kind.
pub proof fn law_type_id_round_trip(mode: Option<ElementKind>)
    requires
        type_id_spec(mode) is Some,
    ensures
        kind_of_type_id_spec(type_id_spec(mode)->0) == mode,
{
}

/// The type ids columns are stored under: integers 1, enumerations 2,
/// float ranges 3, texts 4, addresses 5, times 6; reading an id back
/// gives its kind; columns of other kinds (single floats, and unsigned
/// integers here) and columns without a mode are not stored.
pub proof fn law_type_id_table(kind: ElementKind)
    ensures
        type_id_spec(Some(kind)) == match kind {
            ElementKind::Int => Some(1i32),
            ElementKind::Enum => Some(2i32),
            ElementKind::FloatRange => Some(3i32),
            ElementKind::Text => Some(4i32),
            ElementKind::IpAddr => Some(5i32),
            ElementKind::DateTime => Some(6i32),
            _ => None,
        },
        type_id_spec(None) is None,
        type_id_spec(Some(kind)) matches Some(t) ==> kind_of_type_id_spec(t) == Some(kind),
        reviewd_type_id_spec(Some(kind)) == match kind {
            ElementKind::Int => Some(1i32),
            ElementKind::UInt => Some(2i32),
            ElementKind::FloatRange => Some(3i32),
            ElementKind::Text => Some(4i32),
            ElementKind::IpAddr => Some(5i32),
            ElementKind::DateTime => Some(6i32),
            _ => None,
        },
{
}

/// A stored count read back: the stored value where it is a `usize`, 0
/// otherwise (negative, too large, or missing).
pub open spec fn loaded_count_spec(v: Option<i64>) -> usize {
    match v {
        Some(c) => if 0 <= c && c <= usize::MAX { c as usize } else { 0 },
        None => 0,
    }
}

/// A stored count read back as a `usize`.
pub fn loaded_count(v: Option<i64>) -> (r: usize)
    ensures
        r == loaded_count_spec(v),
{
    match v {
        Some(c) => if c < 0 {
            0
        } else if c as u64 > usize::MAX as u64 {
            0
        } else {
            c as usize
        },
        None => 0,
    }
}

/// A count stored by `safe_cast_usize_to_i64` reads back unchanged when it
/// was no larger than the largest `i64`.
pub proof fn law_count_round_trip(v: usize)
    requires
        v <= i64::MAX,
    ensures
        loaded_count_spec(Some(capped(v))) == v,
{
}


/// Row ids strictly increase along `rows` and lie in `(low, high]`.
pub open spec fn ids_increasing_within(rows: Seq<RowSpec>, low: int, high: int) -> bool {
    &&& forall|a: int, b: int| 0 <= a < b < rows.len() ==> rows[a].id < rows[b].id
    &&& forall|a: int| 0 <= a < rows.len() ==> low < #[trigger] rows[a].id <= high
}

proof fn lemma_column_rows_ids(c: ClusterDescriptions, cluster_id: i32, serial: int, k: int)
    ensures
        ids_increasing_within(column_rows(c, cluster_id, serial, k).0, serial, column_rows(c, cluster_id, serial, k).1),
        column_rows(c, cluster_id, serial, k).1 >= serial,
    decreases k,
{
    if k > 0 {
        lemma_column_rows_ids(c, cluster_id, serial, k - 1);
    }
}

proof fn lemma_plan_ids(cs: Seq<ClusterDescriptions>, k: int)
    ensures
        ids_increasing_within(plan_spec(cs, k).0, 0, plan_spec(cs, k).1),
        plan_spec(cs, k).1 >= 0,
    decreases k,
{
    if k > 0 {
        lemma_plan_ids(cs, k - 1);
        let (rows, s) = plan_spec(cs, k - 1);
        if let Some(id) = cs[k - 1].cluster_id {
            lemma_column_rows_ids(cs[k - 1], id, s, cs[k - 1].columns@.len() as int);
            let (more, s2) = column_rows(cs[k - 1], id, s, cs[k - 1].columns@.len() as int);
            let all = rows + more;
            assert forall|a: int, b: int| 0 <= a < b < all.len() implies all[a].id < all[b].id by {
                if b < rows.len() {
                } else if a < rows.len() {
                    assert(all[a].id <= s);
                    assert(all[b] == more[b - rows.len()]);
                } else {
                    assert(all[a] == more[a - rows.len()]);
                    assert(all[b] == more[b - rows.len()]);
                }
            }
            assert forall|a: int| 0 <= a < all.len() implies 0 < #[trigger] all[a].id <= s2 by {
                if a < rows.len() {
                    assert(all[a] == rows[a]);
                } else {
                    assert(all[a] == more[a - rows.len()]);
                }
            }
        }
    }
}

/// The rows made for storing descriptions carry distinct serial ids, in
/// increasing order from 1 on: a serial id names at most one row.
pub proof fn law_serial_ids_distinct(cs: Seq<ClusterDescriptions>)
    ensures
        forall|a: int, b: int| 0 <= a < b < plan_spec(cs, cs.len() as int).0.len() ==>
            plan_spec(cs, cs.len() as int).0[a].id < plan_spec(cs, cs.len() as int).0[b].id,
        forall|a: int| 0 <= a < plan_spec(cs, cs.len() as int).0.len() ==> #[trigger] plan_spec(cs, cs.len() as int).0[a].id >= 1,
{
    lemma_plan_ids(cs, cs.len() as int);
}


/// A stored row read back gives column `j` of a cluster's descriptions:
/// the cluster, the column's index, the kind of its mode, its counts
/// (when they fit in an `i64`) and the cluster's event range.
pub open spec fn row_reads_back(row: RowSpec, c: ClusterDescriptions, j: int) -> bool {
    &&& 0 <= j < c.columns@.len()
    &&& c.cluster_id == Some(row.cluster_id)
    &&& row.column_index == j
    &&& kind_of_type_id_spec(row.type_id) == c.columns@[j].mode
    &&& (c.columns@[j].count <= i64::MAX ==> loaded_count_spec(Some(row.count)) == c.columns@[j].count)
    &&& (c.columns@[j].unique_count <= i64::MAX ==> loaded_count_spec(Some(row.unique_count)) == c.columns@[j].unique_count)
    &&& c.first_event_id matches Some(f) && row.first_event_id == decimal(f as nat)
    &&& c.last_event_id matches Some(l) && row.last_event_id == decimal(l as nat)
}

/// Column `j` of a cluster's descriptions is stored: the cluster is known,
/// the column's mode is of a stored kind, the event range is known and the
/// index fits in an `i32`.
pub open spec fn stored_column(c: ClusterDescriptions, j: int) -> bool {
    &&& 0 <= j < c.columns@.len()
    &&& c.cluster_id is Some
    &&& type_id_spec(c.columns@[j].mode) is Some
    &&& c.first_event_id is Some
    &&& c.last_event_id is Some
    &&& j <= MAX_VALUE_OF_I32_USIZE
}

/// A row reads back as one of the first `k` columns of a cluster.
pub open spec fn reads_back_column(row: RowSpec, c: ClusterDescriptions, k: int) -> bool {
    exists|j: int| 0 <= j < k && #[trigger] row_reads_back(row, c, j)
}

/// A row reads back as a column of one of the first `k` clusters.
pub open spec fn reads_back_some(row: RowSpec, cs: Seq<ClusterDescriptions>, k: int) -> bool {
    exists|i: int, j: int| 0 <= i < k && #[trigger] row_reads_back(row, cs[i], j)
}

proof fn lemma_column_rows_read_back(c: ClusterDescriptions, cluster_id: i32, serial: int, k: int)
    requires
        c.cluster_id == Some(cluster_id),
        0 <= k <= c.columns@.len(),
    ensures
        forall|a: int| 0 <= a < column_rows(c, cluster_id, serial, k).0.len() ==>
            #[trigger] reads_back_column(column_rows(c, cluster_id, serial, k).0[a], c, k),
        forall|j: int| 0 <= j < k && #[trigger] stored_column(c, j) ==>
            exists|a: int| 0 <= a < column_rows(c, cluster_id, serial, k).0.len() && row_reads_back(column_rows(c, cluster_id, serial, k).0[a], c, j),
    decreases k,
{
    if k > 0 {
        lemma_column_rows_read_back(c, cluster_id, serial, k - 1);
        let (rows, s) = column_rows(c, cluster_id, serial, k - 1);
        let out = column_rows(c, cluster_id, serial, k).0;
        assert forall|a: int| 0 <= a < out.len() implies #[trigger] reads_back_column(out[a], c, k) by {
            if a < rows.len() {
                assert(out[a] == rows[a]);
                assert(reads_back_column(rows[a], c, k - 1));
                let j = choose|j: int| 0 <= j < k - 1 && #[trigger] row_reads_back(rows[a], c, j);
                assert(row_reads_back(out[a], c, j));
            } else {
                assert(row_reads_back(out[a], c, k - 1));
            }
        }
        assert forall|j: int| 0 <= j < k && #[trigger] stored_column(c, j) implies
            exists|a: int| 0 <= a < out.len() && row_reads_back(out[a], c, j) by {
            if j < k - 1 {
                let a = choose|a: int| 0 <= a < rows.len() && row_reads_back(rows[a], c, j);
                assert(out[a] == rows[a]);
                assert(row_reads_back(out[a], c, j));
            } else {
                assert(row_reads_back(out[rows.len() as int], c, j));
            }
        }
    }
}

proof fn lemma_plan_read_back(cs: Seq<ClusterDescriptions>, k: int)
    requires
        0 <= k <= cs.len(),
    ensures
        forall|a: int| 0 <= a < plan_spec(cs, k).0.len() ==> #[trigger] reads_back_some(plan_spec(cs, k).0[a], cs, k),
        forall|i: int, j: int| 0 <= i < k && #[trigger] stored_column(cs[i], j) ==>
            exists|a: int| 0 <= a < plan_spec(cs, k).0.len() && row_reads_back(plan_spec(cs, k).0[a], cs[i], j),
    decreases k,
{
    if k > 0 {
        lemma_plan_read_back(cs, k - 1);
        let (rows, s) = plan_spec(cs, k - 1);
        let out = plan_spec(cs, k).0;
        let c = cs[k - 1];
        match c.cluster_id {
            None => {
                assert forall|a: int| 0 <= a < out.len() implies #[trigger] reads_back_some(out[a], cs, k) by {
                    assert(out[a] == rows[a]);
                    assert(reads_back_some(rows[a], cs, k - 1));
                    let (i, j) = choose|i: int, j: int| 0 <= i < k - 1 && #[trigger] row_reads_back(rows[a], cs[i], j);
                    assert(row_reads_back(out[a], cs[i], j));
                }
                assert forall|i: int, j: int| 0 <= i < k && #[trigger] stored_column(cs[i], j) implies
                    exists|a: int| 0 <= a < out.len() && row_reads_back(out[a], cs[i], j) by {
                    assert(i < k - 1);
                }
            },
            Some(id) => {
                let n = c.columns@.len() as int;
                lemma_column_rows_read_back(c, id, s, n);
                let more = column_rows(c, id, s, n).0;
                assert(out == rows + more);
                assert forall|a: int| 0 <= a < out.len() implies #[trigger] reads_back_some(out[a], cs, k) by {
                    if a < rows.len() {
                        assert(out[a] == rows[a]);
                        assert(reads_back_some(rows[a], cs, k - 1));
                        let (i, j) = choose|i: int, j: int| 0 <= i < k - 1 && #[trigger] row_reads_back(rows[a], cs[i], j);
                        assert(row_reads_back(out[a], cs[i], j));
                    } else {
                        assert(out[a] == more[a - rows.len()]);
                        assert(reads_back_column(more[a - rows.len()], c, n));
                        let j = choose|j: int| 0 <= j < n && #[trigger] row_reads_back(more[a - rows.len()], c, j);
                        assert(row_reads_back(out[a], cs[k - 1], j));
                    }
                }
                assert forall|i: int, j: int| 0 <= i < k && #[trigger] stored_column(cs[i], j) implies
                    exists|a: int| 0 <= a < out.len() && row_reads_back(out[a], cs[i], j) by {
                    if i < k - 1 {
                        let a = choose|a: int| 0 <= a < rows.len() && row_reads_back(rows[a], cs[i], j);
                        assert(out[a] == rows[a]);
                        assert(row_reads_back(out[a], cs[i], j));
                    } else {
                        assert(stored_column(c, j));
                        let b = choose|b: int| 0 <= b < more.len() && row_reads_back(more[b], c, j);
                        assert(out[rows.len() + b] == more[b]);
                        assert(row_reads_back(out[rows.len() + b], cs[i], j));
                    }
                }
            },
        }
    }
}

/// What storing the descriptions writes is what reading them back gives:
/// every stored row reads back as a column of one of the clusters (its
/// cluster, index, kind of mode, counts and event range), and every column
/// that is stored (a known cluster, a mode of a stored kind, a known event
/// range, an index that fits in an `i32`) has such a row.
pub proof fn law_descriptions_read_back(cs: Seq<ClusterDescriptions>)
    ensures
        forall|a: int| 0 <= a < plan_spec(cs, cs.len() as int).0.len() ==>
            #[trigger] reads_back_some(plan_spec(cs, cs.len() as int).0[a], cs, cs.len() as int),
        forall|i: int, j: int| 0 <= i < cs.len() && #[trigger] stored_column(cs[i], j) ==>
            exists|a: int| 0 <= a < plan_spec(cs, cs.len() as int).0.len() && row_reads_back(plan_spec(cs, cs.len() as int).0[a], cs[i], j),
{
    lemma_plan_read_back(cs, cs.len() as int);
}

/// A described value, as the descriptions read back hold it: times as
/// seconds since the epoch, IPv4 addresses as their 32-bit number; float
/// values are not carried.
#[derive(Clone, Debug, PartialEq, Eq)]
pub enum Element {
    Int(i64),
    UInt(u32),
    Enum(String),
    Float,
    FloatRange,
    Text(String),
    IpAddr(u32),
    DateTime(i64),
}

/// The address `Ipv4Addr::from_str` reads from a text (as its 32-bit
/// number), or `None` when the text is no IPv4 address.
pub uninterp spec fn ipv4_of(s: Seq<char>) -> Option<u32>;

/// Calls `Ipv4Addr::from_str` (of `core::net`); the address, as its number, or
/// whether the text was refused, is named `ipv4_of` of the text.
#[verifier::external_body]
fn parse_ipv4(s: &str) -> (r: Option<u32>)
    ensures
        r == ipv4_of(s@),
{
    match s.parse::<core::net::Ipv4Addr>() {
        Ok(a) => Some(u32::from(a)),
        Err(_) => None,
    }
}

/// The time stored for a missing top value: 0001-01-01 01:01:01, in
/// seconds since the epoch.
pub const MISSING_TIME: i64 = -62135593139;

/// The placeholder for a missing text value.
pub const MISSING_TEXT: &'static str = "N/A";

/// What the described values read back are built from.
pub struct GetValueByType {}

impl GetValueByType {
    /// An enumerated top value, or `N/A` when it is missing.
    pub fn top_n_enum(value: &Option<String>) -> (r: Element)
        ensures
            r matches Element::Enum(s) && s@ == match value { Some(v) => v@, None => "N/A"@ },
    {
        match value {
            Some(v) => Element::Enum(v.clone()),
            None => Element::Enum(MISSING_TEXT.to_string()),
        }
    }

    /// A text top value, or `N/A` when it is missing.
    pub fn top_n_text(value: &Option<String>) -> (r: Element)
        ensures
            r matches Element::Text(s) && s@ == match value { Some(v) => v@, None => "N/A"@ },
    {
        match value {
            Some(v) => Element::Text(v.clone()),
            None => Element::Text(MISSING_TEXT.to_string()),
        }
    }

    /// An IPv4 top value: the address its text names, 0.0.0.0 when the
    /// text is no address or the value is missing.
    pub fn top_n_ipaddr(value: &Option<String>) -> (r: Element)
        ensures
            r == Element::IpAddr(match value {
                Some(v) => match ipv4_of(v@) { Some(a) => a, None => 0 },
                None => 0,
            }),
    {
        match value {
            Some(v) => match parse_ipv4(v.as_str()) {
                Some(a) => Element::IpAddr(a),
                None => Element::IpAddr(0),
            },
            None => Element::IpAddr(0),
        }
    }

    /// A time top value, or `MISSING_TIME` when it is missing.
    pub fn top_n_datetime(value: &Option<i64>) -> (r: Element)
        ensures
            r == Element::DateTime(match value { Some(t) => *t, None => MISSING_TIME }),
    {
        match value {
            Some(t) => Element::DateTime(*t),
            None => Element::DateTime(MISSING_TIME),
        }
    }

    /// An enumerated mode, when there is one.
    pub fn mode_enum(value: Option<String>) -> (r: Option<Element>)
        ensures
            match value {
                Some(v) => r matches Some(Element::Enum(s)) && s@ == v@,
                None => r is None,
            },
    {
        match value {
            Some(m) => Some(Element::Enum(m)),
            None => None,
        }
    }

    /// A text mode, when there is one.
    pub fn mode_text(value: Option<String>) -> (r: Option<Element>)
        ensures
            match value {
                Some(v) => r matches Some(Element::Text(s)) && s@ == v@,
                None => r is None,
            },
    {
        match value {
            Some(m) => Some(Element::Text(m)),
            None => None,
        }
    }

    /// An IPv4 mode, when there is one: the address its text names, or
    /// 0.0.0.0.
    pub fn mode_ipaddr(value: Option<String>) -> (r: Option<Element>)
        ensures
            match value {
                Some(v) => r == Some(Element::IpAddr(match ipv4_of(v@) { Some(a) => a, None => 0 })),
                None => r is None,
            },
    {
        match value {
            Some(m) => match parse_ipv4(m.as_str()) {
                Some(a) => Some(Element::IpAddr(a)),
                None => Some(Element::IpAddr(0)),
            },
            None => None,
        }
    }

    /// A time mode, when there is one.
    pub fn mode_datetime(value: Option<i64>) -> (r: Option<Element>)
        ensures
            r == match value { Some(t) => Some(Element::DateTime(t)), None => None },
    {
        match value {
            Some(m) => Some(Element::DateTime(m)),
            None => None,
        }
    }
}

/// The text `Ipv4Addr::to_string` (of `core::net`) gives for an address,
/// given as its 32-bit number.
pub uninterp spec fn ipv4_text_of(a: u32) -> Seq<char>;

/// Calls `Ipv4Addr::from(a).to_string()` (of `core::net`); the text is
/// named `ipv4_text_of` of the address.
#[verifier::external_body]
fn ipv4_text(a: u32) -> (r: String)
    ensures
        r@ == ipv4_text_of(a),
{
    core::net::Ipv4Addr::from(a).to_string()
}

/// A described value as a description table stores it: as text, or as a
/// time.
pub enum StoredValue {
    Text(String),
    Time(i64),
}

/// The kind of a described value.
pub open spec fn kind_of(e: Element) -> ElementKind {
    match e {
        Element::Int(_) => ElementKind::Int,
        Element::UInt(_) => ElementKind::UInt,
        Element::Enum(_) => ElementKind::Enum,
        Element::Float => ElementKind::Float,
        Element::FloatRange => ElementKind::FloatRange,
        Element::Text(_) => ElementKind::Text,
        Element::IpAddr(_) => ElementKind::IpAddr,
        Element::DateTime(_) => ElementKind::DateTime,
    }
}

/// How a mode or top value is stored: enumerations and texts as their
/// text, addresses as their dotted text, times as themselves; numbers are
/// stored elsewhere.
pub open spec fn stored_as(e: Element, r: Option<StoredValue>) -> bool {
    match e {
        Element::Enum(t) => r == Some(StoredValue::Text(t)),
        Element::Text(t) => r == Some(StoredValue::Text(t)),
        Element::IpAddr(a) => r matches Some(StoredValue::Text(t)) && t@ == ipv4_text_of(a),
        Element::DateTime(t) => r == Some(StoredValue::Time(t)),
        _ => r is None,
    }
}

/// How a stored value of a column of a kind is read back: as the readers
/// of modes and top values read a present value; a stored value of the
/// wrong form reads as nothing.
pub open spec fn read_as(kind: ElementKind, v: StoredValue, r: Option<Element>) -> bool {
    match (kind, v) {
        (ElementKind::Enum, StoredValue::Text(t)) => r == Some(Element::Enum(t)),
        (ElementKind::Text, StoredValue::Text(t)) => r == Some(Element::Text(t)),
        (ElementKind::IpAddr, StoredValue::Text(t)) => r == Some(Element::IpAddr(match ipv4_of(t@) { Some(a) => a, None => 0 })),
        (ElementKind::DateTime, StoredValue::Time(t)) => r == Some(Element::DateTime(t)),
        _ => r is None,
    }
}

/// The stored form of a mode or top value.
pub fn store_value(e: Element) -> (r: Option<StoredValue>)
    ensures
        stored_as(e, r),
{
    match e {
        Element::Enum(t) => Some(StoredValue::Text(t)),
        Element::Text(t) => Some(StoredValue::Text(t)),
        Element::IpAddr(a) => Some(StoredValue::Text(ipv4_text(a))),
        Element::DateTime(t) => Some(StoredValue::Time(t)),
        _ => None,
    }
}

/// A stored mode or top value of a column of a kind, read back.
pub fn read_value(kind: ElementKind, v: StoredValue) -> (r: Option<Element>)
    ensures
        read_as(kind, v, r),
{
    match (kind, v) {
        (ElementKind::Enum, StoredValue::Text(t)) => Some(Element::Enum(t)),
        (ElementKind::Text, StoredValue::Text(t)) => Some(Element::Text(t)),
        (ElementKind::IpAddr, StoredValue::Text(t)) => match parse_ipv4(t.as_str()) {
            Some(a) => Some(Element::IpAddr(a)),
            None => Some(Element::IpAddr(0)),
        },
        (ElementKind::DateTime, StoredValue::Time(t)) => Some(Element::DateTime(t)),
        _ => None,
    }
}

/// The mode and top values of a column of enumerations, texts or times,
/// stored and read back under the column's kind, are what was described,
/// and so are their counts when they fit in an `i64`.
pub proof fn law_values_read_back(e: Element, stored: Option<StoredValue>, read: Option<Element>, count: usize)
    requires
        e is Enum || e is Text || e is DateTime,
        stored_as(e, stored),
        stored matches Some(v) && read_as(kind_of(e), v, read),
        count <= i64::MAX,
    ensures
        read == Some(e),
        loaded_count_spec(Some(capped(count))) == count,
{
}

} // verus!
