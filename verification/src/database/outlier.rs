//! Listing outliers: selected and sorted columns, and the filter by data
//! source.

use vstd::prelude::*;
use crate::database::cluster::{choose_columns, choose_orderby, columns_spec, assoc, ColumnTable};
use crate::text::spec_to_lowercase;

verus! {

/// The tables a listing of outliers reads, joined.
pub const OUTLIER_SCHEMA: &'static str = "(outlier INNER JOIN data_source ON outlier.data_source_id = data_source.id)";

/// The columns a request can select, by name.
pub open spec fn outlier_select_spec() -> Seq<(&'static str, &'static str)> {
    seq![
        ("id", "outlier.id"),
        ("outlier", "right((outlier.raw_event)::TEXT, -2) as outlier"),
        ("data_source", "data_source.topic_name as data_source"),
        ("size", "outlier.size"),
        ("event_ids", "outlier.event_ids"),
    ]
}

/// The columns a listing of outliers selects when the request names none.
pub open spec fn outlier_default_spec() -> Seq<&'static str> {
    seq![
        "right((outlier.raw_event)::TEXT, -2) as outlier",
        "data_source.topic_name as data_source",
        "outlier.size",
        "outlier.event_ids",
    ]
}

/// The columns a request can sort by, by name.
pub open spec fn outlier_orderby_spec() -> Seq<(&'static str, &'static str)> {
    seq![
        ("outlier", "outlier.raw_event"),
        ("data_source", "data_source.topic_name"),
        ("size", "outlier.size"),
        ("event_ids", "outlier.event_ids"),
    ]
}

/// The columns a listing of outliers selects: those requested as `true`
/// by known name, or the defaults.
pub fn outlier_columns(requested: &Option<Vec<(String, bool)>>) -> (r: Vec<&'static str>)
    ensures
        r@.map_values(|c: &str| c@) == columns_spec(outlier_select_spec(), outlier_default_spec(), *requested),
{
    let table: ColumnTable = vec![
        ("id", "outlier.id"),
        ("outlier", "right((outlier.raw_event)::TEXT, -2) as outlier"),
        ("data_source", "data_source.topic_name as data_source"),
        ("size", "outlier.size"),
        ("event_ids", "outlier.event_ids"),
    ];
    let defaults: Vec<&'static str> = vec![
        "right((outlier.raw_event)::TEXT, -2) as outlier",
        "data_source.topic_name as data_source",
        "outlier.size",
        "outlier.event_ids",
    ];
    choose_columns(&table, defaults, requested)
}

/// The column a listing of outliers is sorted by.
pub fn outlier_orderby(name: Option<&str>) -> (r: Option<&'static str>)
    ensures
        match r {
            Some(c) => name matches Some(n) && assoc(outlier_orderby_spec(), spec_to_lowercase(n@)) == Some(c@),
            None => !(name matches Some(n) && assoc(outlier_orderby_spec(), spec_to_lowercase(n@)) is Some),
        },
{
    let table: ColumnTable = vec![
        ("outlier", "outlier.raw_event"),
        ("data_source", "data_source.topic_name"),
        ("size", "outlier.size"),
        ("event_ids", "outlier.event_ids"),
    ];
    choose_orderby(&table, name)
}

/// The condition that selects the outliers of one data source.
pub open spec fn data_source_condition(d: Seq<char>) -> Seq<char> {
    "Outlier.data_source_id = (SELECT id FROM data_source WHERE topic_name = '"@ + d + "')"@
}

/// The filter text for the first `k` entries of a `data_source` array:
/// the condition of each string entry, every one but the array's first
/// entry preceded by ` or `; entries that are not strings are skipped.
pub open spec fn outlier_where_spec(entries: Seq<Option<String>>, k: int) -> Seq<char>
    decreases k,
{
    if k <= 0 {
        Seq::empty()
    } else {
        outlier_where_spec(entries, k - 1) + match entries[k - 1] {
            Some(d) => if k - 1 == 0 { data_source_condition(d@) } else { " or "@ + data_source_condition(d@) },
            None => Seq::empty(),
        }
    }
}

/// The `WHERE` clause for the outliers of the data sources in a filter's
/// `data_source` array (`None` for entries that are not strings).
pub fn outlier_where_clause(entries: &Vec<Option<String>>) -> (r: String)
    ensures
        r@ == outlier_where_spec(entries@, entries@.len() as int),
{
    let mut w = String::new();
    let mut i: usize = 0;
    while i < entries.len()
        invariant
            i <= entries@.len(),
            w@ == outlier_where_spec(entries@, i as int),
        decreases entries@.len() - i,
    {
        if let Some(d) = &entries[i] {
            if i != 0 {
                w.append(" or ");
            }
            w.append("Outlier.data_source_id = (SELECT id FROM data_source WHERE topic_name = '");
            w.append(d.as_str());
            w.append("')");
        }
        i = i + 1;
        assert(w@ =~= outlier_where_spec(entries@, i as int));
    }
    w
}

} // verus!
