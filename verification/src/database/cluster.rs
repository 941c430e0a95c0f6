//! Listing and updating clusters: which columns a request selects and
//! sorts by, and how an update request is checked.

use vstd::prelude::*;
use crate::database::query::{page_spec, GetQuery};
use crate::filter::{join_or, query_spec, views, Filter, Schema};
use crate::text::{spec_to_lowercase, str_eq, to_lowercase};

verus! {

/// A mapping from request names to SQL column expressions.
pub type ColumnTable = Vec<(&'static str, &'static str)>;

/// The expression of the first entry named `name`.
pub open spec fn assoc(table: Seq<(&'static str, &'static str)>, name: Seq<char>) -> Option<Seq<char>>
    decreases table.len(),
{
    if table.len() == 0 {
        None
    } else if table[0].0@ == name {
        Some(table[0].1@)
    } else {
        assoc(table.drop_first(), name)
    }
}

/// The expression of the first entry named `name`.
pub fn assoc_lookup(table: &ColumnTable, name: &str) -> (r: Option<&'static str>)
    ensures
        match r {
            Some(c) => assoc(table@, name@) == Some(c@),
            None => assoc(table@, name@) is None,
        },
{
    let mut i: usize = 0;
    assert(table@.skip(0) =~= table@);
    while i < table.len()
        invariant
            i <= table@.len(),
            assoc(table@, name@) == assoc(table@.skip(i as int), name@),
        decreases table@.len() - i,
    {
        let ghost t = table@.skip(i as int);
        assert(t[0] == table@[i as int]);
        assert(t.drop_first() =~= table@.skip(i + 1));
        if str_eq(table[i].0, name) {
            return Some(table[i].1);
        }
        i = i + 1;
    }
    None
}

/// The cluster table of the review service, or that of reviewd, which also
/// joins the raw event of each cluster.
#[derive(Clone, Copy, Debug, PartialEq, Eq, Structural)]
pub enum Layout {
    Review,
    Reviewd,
}

/// The columns a request can select, by name.
pub fn select_table(layout: Layout) -> (r: ColumnTable)
    ensures
        r@ == select_table_spec(layout),
{
    let mut t: ColumnTable = vec![
        ("cluster_id", "cluster.cluster_id"),
        ("detector_id", "cluster.detector_id"),
        ("qualifier", "qualifier.description as qualifier"),
        ("status", "status.description as status"),
        ("category", "category.name as category"),
        ("signature", "cluster.signature"),
        ("data_source", "data_source.topic_name as data_source"),
        ("size", "cluster.size"),
        ("score", "cluster.score"),
    ];
    if layout == Layout::Reviewd {
        t.push(("raw_event", "raw_event.data as raw_event"));
    }
    t.push(("event_ids", "cluster.event_ids"));
    t.push(("last_modification_time", "cluster.last_modification_time"));
    t
}

/// The columns a request can select, by name.
pub open spec fn select_table_spec(layout: Layout) -> Seq<(&'static str, &'static str)> {
    seq![
        ("cluster_id", "cluster.cluster_id"),
        ("detector_id", "cluster.detector_id"),
        ("qualifier", "qualifier.description as qualifier"),
        ("status", "status.description as status"),
        ("category", "category.name as category"),
        ("signature", "cluster.signature"),
        ("data_source", "data_source.topic_name as data_source"),
        ("size", "cluster.size"),
        ("score", "cluster.score"),
    ] + (if layout == Layout::Reviewd { seq![("raw_event", "raw_event.data as raw_event")] } else { Seq::empty() })
        + seq![("event_ids", "cluster.event_ids"), ("last_modification_time", "cluster.last_modification_time")]
}

/// The columns a request can sort by, by name.
pub open spec fn orderby_table_spec(layout: Layout) -> Seq<(&'static str, &'static str)> {
    seq![
        ("cluster_id", "cluster.cluster_id"),
        ("detector_id", "cluster.detector_id"),
        ("qualifier", "qualifier.description"),
        ("status", "status.description"),
        ("category", "category.name"),
        ("signature", "cluster.signature"),
        ("data_source", "data_source.topic_name"),
        ("size", "cluster.size"),
        ("score", "cluster.score"),
    ] + (if layout == Layout::Reviewd { seq![("raw_event", "raw_event.data")] } else { Seq::empty() })
        + seq![("event_ids", "cluster.event_ids"), ("last_modification_time", "cluster.last_modification_time")]
}

/// The columns a request can sort by, by name.
pub fn orderby_table(layout: Layout) -> (r: ColumnTable)
    ensures
        r@ == orderby_table_spec(layout),
{
    let mut t: ColumnTable = vec![
        ("cluster_id", "cluster.cluster_id"),
        ("detector_id", "cluster.detector_id"),
        ("qualifier", "qualifier.description"),
        ("status", "status.description"),
        ("category", "category.name"),
        ("signature", "cluster.signature"),
        ("data_source", "data_source.topic_name"),
        ("size", "cluster.size"),
        ("score", "cluster.score"),
    ];
    if layout == Layout::Reviewd {
        t.push(("raw_event", "raw_event.data"));
    }
    t.push(("event_ids", "cluster.event_ids"));
    t.push(("last_modification_time", "cluster.last_modification_time"));
    t
}

/// The columns a listing selects when the request names none.
pub open spec fn default_columns_spec(layout: Layout) -> Seq<&'static str> {
    seq![
        "cluster.cluster_id",
        "cluster.detector_id",
        "qualifier.description as qualifier",
        "status.description as status",
        "category.name as category",
        "cluster.signature",
        "data_source.topic_name as data_source",
        "cluster.size",
        "cluster.score",
        "cluster.last_modification_time",
    ] + (if layout == Layout::Reviewd { seq!["raw_event.data as raw_event"] } else { Seq::empty() })
        + seq!["cluster.event_ids"]
}

/// The columns a listing selects when the request names none.
pub fn default_columns(layout: Layout) -> (r: Vec<&'static str>)
    ensures
        r@ == default_columns_spec(layout),
{
    let mut t: Vec<&'static str> = vec![
        "cluster.cluster_id",
        "cluster.detector_id",
        "qualifier.description as qualifier",
        "status.description as status",
        "category.name as category",
        "cluster.signature",
        "data_source.topic_name as data_source",
        "cluster.size",
        "cluster.score",
        "cluster.last_modification_time",
    ];
    if layout == Layout::Reviewd {
        t.push("raw_event.data as raw_event");
    }
    t.push("cluster.event_ids");
    t
}

/// The columns of the names requested as `true`, in request order, where
/// names are matched in lowercase and unknown ones ignored.
pub open spec fn chosen_columns(table: Seq<(&'static str, &'static str)>, requested: Seq<(String, bool)>) -> Seq<Seq<char>>
    decreases requested.len(),
{
    if requested.len() == 0 {
        Seq::empty()
    } else {
        let rest = chosen_columns(table, requested.drop_last());
        let (name, wanted) = requested.last();
        if wanted {
            match assoc(table, spec_to_lowercase(name@)) {
                Some(c) => rest.push(c),
                None => rest,
            }
        } else {
            rest
        }
    }
}

/// The columns of the names requested as `true` (lowercased; unknown names
/// ignored), or the defaults when that leaves none or nothing is requested.
pub open spec fn columns_spec(
    table: Seq<(&'static str, &'static str)>,
    defaults: Seq<&'static str>,
    requested: Option<Vec<(String, bool)>>,
) -> Seq<Seq<char>> {
    match requested {
        Some(req) => {
            let chosen = chosen_columns(table, req@);
            if chosen.len() > 0 { chosen } else { defaults.map_values(|c: &str| c@) }
        },
        None => defaults.map_values(|c: &str| c@),
    }
}

/// The columns of the names requested as `true`, or the defaults.
pub fn choose_columns(table: &ColumnTable, defaults: Vec<&'static str>, requested: &Option<Vec<(String, bool)>>) -> (r: Vec<&'static str>)
    ensures
        r@.map_values(|c: &str| c@) == columns_spec(table@, defaults@, *requested),
{
    let mut out: Vec<&'static str> = Vec::new();
    if let Some(req) = requested {
        let mut i: usize = 0;
        while i < req.len()
            invariant
                i <= req@.len(),
                out@.map_values(|c: &str| c@) == chosen_columns(table@, req@.take(i as int)),
            decreases req@.len() - i,
        {
            if req[i].1 {
                let lower = to_lowercase(req[i].0.as_str());
                if let Some(c) = assoc_lookup(table, lower.as_str()) {
                    out.push(c);
                }
            }
            proof {
                let t = req@.take(i + 1);
                assert(t.drop_last() =~= req@.take(i as int));
                assert(t.last() == req@[i as int]);
                assert(out@.map_values(|c: &str| c@) =~= chosen_columns(table@, t));
            }
            i = i + 1;
        }
        assert(req@.take(i as int) =~= req@);
        if out.len() > 0 {
            return out;
        }
    }
    defaults
}

/// The column of a sort request: that of the requested name in
/// lowercase, if known.
pub fn choose_orderby(table: &ColumnTable, name: Option<&str>) -> (r: Option<&'static str>)
    ensures
        match r {
            Some(c) => name matches Some(n) && assoc(table@, spec_to_lowercase(n@)) == Some(c@),
            None => !(name matches Some(n) && assoc(table@, spec_to_lowercase(n@)) is Some),
        },
{
    match name {
        Some(n) => {
            let lower = to_lowercase(n);
            assoc_lookup(table, lower.as_str())
        },
        None => None,
    }
}

/// The columns a listing of clusters selects.
pub fn select_columns(layout: Layout, requested: &Option<Vec<(String, bool)>>) -> (r: Vec<&'static str>)
    ensures
        r@.map_values(|c: &str| c@) == columns_spec(select_table_spec(layout), default_columns_spec(layout), *requested),
{
    choose_columns(&select_table(layout), default_columns(layout), requested)
}

/// The column a listing of clusters is sorted by: that of the requested
/// name in lowercase, if known.
pub fn orderby_column(layout: Layout, name: Option<&str>) -> (r: Option<&'static str>)
    ensures
        match r {
            Some(c) => name matches Some(n) && assoc(orderby_table_spec(layout), spec_to_lowercase(n@)) == Some(c@),
            None => !(name matches Some(n) && assoc(orderby_table_spec(layout), spec_to_lowercase(n@)) is Some),
        },
{
    choose_orderby(&orderby_table(layout), name)
}

/// The tables a listing of clusters reads, joined.
pub fn cluster_schema(layout: Layout) -> (r: &'static str)
    ensures
        r@ == match layout {
            Layout::Review => "((((cluster INNER JOIN status ON cluster.status_id = status.id) INNER JOIN qualifier ON cluster.qualifier_id = qualifier.id) INNER JOIN category ON cluster.category_id = category.id) INNER JOIN data_source ON cluster.data_source_id = data_source.id)"@,
            Layout::Reviewd => "(((((cluster INNER JOIN status ON cluster.status_id = status.id) INNER JOIN qualifier ON cluster.qualifier_id = qualifier.id) INNER JOIN category ON cluster.category_id = category.id) INNER JOIN data_source ON cluster.data_source_id = data_source.id) INNER JOIN raw_event ON cluster.raw_event_id = raw_event.id)"@,
        },
{
    match layout {
        Layout::Review => "((((cluster INNER JOIN status ON cluster.status_id = status.id) INNER JOIN qualifier ON cluster.qualifier_id = qualifier.id) INNER JOIN category ON cluster.category_id = category.id) INNER JOIN data_source ON cluster.data_source_id = data_source.id)",
        Layout::Reviewd => "(((((cluster INNER JOIN status ON cluster.status_id = status.id) INNER JOIN qualifier ON cluster.qualifier_id = qualifier.id) INNER JOIN category ON cluster.category_id = category.id) INNER JOIN data_source ON cluster.data_source_id = data_source.id) INNER JOIN raw_event ON cluster.raw_event_id = raw_event.id)",
    }
}

/// The rows a listing returns per page unless asked otherwise.
pub const DEFAULT_PER_PAGE: i64 = 10;

/// The most rows a listing returns per page.
pub const MAX_PER_PAGE: i64 = 100;

/// Whether an update request may go to the database: it names a data
/// source and at least one of a new cluster id, category or qualifier.
pub fn update_cluster_accepted(data_source: bool, cluster_id: bool, category: bool, qualifier: bool) -> (r: bool)
    ensures
        r == (data_source && (cluster_id || category || qualifier)),
{
    data_source && (cluster_id || category || qualifier)
}

/// Whether a cluster update succeeded: exactly one cluster was changed.
pub fn update_cluster_succeeded(rows: i32) -> (r: bool)
    ensures
        r == (rows == 1),
{
    rows == 1
}

/// The `WHERE` clause of a listing's filter: the filter's alternatives
/// joined by `or`, none when there is no filter or it gives nothing.
pub open spec fn listing_where(filter: Option<Filter>) -> Option<Seq<char>> {
    match filter {
        Some(f) => {
            let w = join_or(query_spec(f, Schema::Cluster));
            if w.len() == 0 { None } else { Some(w) }
        },
        None => None,
    }
}

/// The page size of a listing: the requested one (a positive number, at
/// most `MAX_PER_PAGE`), else `DEFAULT_PER_PAGE`.
pub open spec fn listing_per_page(per_page: Option<&str>) -> i64 {
    match page_spec(per_page) {
        Some(p) => if p > MAX_PER_PAGE { MAX_PER_PAGE } else { p },
        None => DEFAULT_PER_PAGE,
    }
}

/// The sort direction of a listing: `desc` only when it is sorted by a
/// known column and `desc` is asked for (in any case).
pub open spec fn listing_order(sorted: bool, order: Option<&str>) -> Option<Seq<char>> {
    if sorted && (order matches Some(o) && spec_to_lowercase(o@) == "desc"@) {
        Some("desc"@)
    } else {
        None
    }
}

fn owned_columns(cols: &Vec<&'static str>) -> (r: Vec<String>)
    ensures
        views(r@) == cols@.map_values(|c: &str| c@),
{
    let mut r: Vec<String> = Vec::new();
    let mut i: usize = 0;
    while i < cols.len()
        invariant
            i <= cols@.len(),
            r@.len() == i,
            forall|k: int| 0 <= k < i ==> #[trigger] r@[k]@ == cols@[k]@,
        decreases cols@.len() - i,
    {
        r.push(cols[i].to_string());
        i = i + 1;
    }
    assert(views(r@) =~= cols@.map_values(|c: &str| c@));
    r
}

/// The paged query that lists clusters: the requested columns (or the
/// defaults), the joined tables, the filter's clause, the requested page,
/// the requested page size (10 unless a positive one is asked for, at most
/// 100), the requested sort column, and `desc` only after a sort column.
pub fn clusters_get_query(
    layout: Layout,
    requested: &Option<Vec<(String, bool)>>,
    filter: &Option<Filter>,
    page: Option<&str>,
    per_page: Option<&str>,
    orderby: Option<&str>,
    order: Option<&str>,
) -> (r: GetQuery)
    ensures
        views(r.select@) == columns_spec(select_table_spec(layout), default_columns_spec(layout), *requested),
        r.schema@ == (match layout {
            Layout::Review => "((((cluster INNER JOIN status ON cluster.status_id = status.id) INNER JOIN qualifier ON cluster.qualifier_id = qualifier.id) INNER JOIN category ON cluster.category_id = category.id) INNER JOIN data_source ON cluster.data_source_id = data_source.id)"@,
            Layout::Reviewd => "(((((cluster INNER JOIN status ON cluster.status_id = status.id) INNER JOIN qualifier ON cluster.qualifier_id = qualifier.id) INNER JOIN category ON cluster.category_id = category.id) INNER JOIN data_source ON cluster.data_source_id = data_source.id) INNER JOIN raw_event ON cluster.raw_event_id = raw_event.id)"@,
        }),
        match r.where_clause { Some(w) => Some(w@), None => None } == listing_where(*filter),
        r.page == page_spec(page),
        r.per_page == listing_per_page(per_page),
        match r.orderby {
            Some(c) => orderby matches Some(n) && assoc(orderby_table_spec(layout), spec_to_lowercase(n@)) == Some(c@),
            None => !(orderby matches Some(n) && assoc(orderby_table_spec(layout), spec_to_lowercase(n@)) is Some),
        },
        match r.order { Some(o) => Some(o@), None => None } == listing_order(r.orderby is Some, order),
{
    let select = owned_columns(&select_columns(layout, requested));
    let where_clause = match filter {
        Some(f) => {
            let w = f.get_where_clause(Schema::Cluster);
            if w.unicode_len() == 0 { None } else { Some(w) }
        },
        None => None,
    };
    let per_page = match GetQuery::get_per_page(per_page, MAX_PER_PAGE) {
        Some(p) => p,
        None => DEFAULT_PER_PAGE,
    };
    let orderby_col = orderby_column(layout, orderby);
    let order_dir = match orderby_col {
        Some(_) => match GetQuery::get_order(order) {
            Some(d) => Some(d.to_string()),
            None => None,
        },
        None => None,
    };
    let orderby_text = match orderby_col {
        Some(c) => Some(c.to_string()),
        None => None,
    };
    GetQuery::new(select, cluster_schema(layout).to_string(), where_clause, GetQuery::get_page(page), per_page, orderby_text, order_dir)
}

/// A listing returns 1 to 100 rows a page: 10 unless a positive page size
/// is asked for, the asked size when it is at most 100, and 100 above it.
pub proof fn law_listing_page_size(per_page: Option<&str>)
    ensures
        1 <= listing_per_page(per_page) <= 100,
        page_spec(per_page) is None ==> listing_per_page(per_page) == 10,
        match page_spec(per_page) {
            Some(p) => listing_per_page(per_page) == if p <= 100 { p } else { 100 },
            None => true,
        },
{
}

} // verus!
