//! Indicators: named sets of tokens of a data source, listed, deleted and
//! updated by requests.

use vstd::prelude::*;
use crate::text::{spec_to_lowercase, str_eq, to_lowercase};

verus! {

/// The tables a listing of indicators reads, joined.
pub const INDICATOR_SCHEMA: &'static str = "(indicator INNER JOIN data_source ON indicator.data_source_id = data_source.id)";

/// The columns a listing of indicators selects.
pub open spec fn indicator_columns_spec() -> Seq<Seq<char>> {
    seq![
        "indicator.name"@,
        "indicator.token"@,
        "data_source.topic_name as data_source"@,
        "indicator.description"@,
        "indicator.last_modification_time"@,
    ]
}

/// The columns a listing of indicators selects.
pub fn indicator_columns() -> (r: Vec<&'static str>)
    ensures
        r@.map_values(|c: &str| c@) == indicator_columns_spec(),
{
    let r: Vec<&'static str> = vec![
        "indicator.name",
        "indicator.token",
        "data_source.topic_name as data_source",
        "indicator.description",
        "indicator.last_modification_time",
    ];
    assert(r@.map_values(|c: &str| c@) =~= indicator_columns_spec());
    r
}

/// The condition that selects the indicator named `n`.
pub open spec fn name_condition(n: Seq<char>) -> Seq<char> {
    "indicator.name = '"@ + n + "'"@
}

/// The filter text for the first `k` entries of a `name` array: the
/// condition of each string entry, every one but the array's first entry
/// preceded by ` or `; entries that are not strings are skipped.
pub open spec fn indicator_where_spec(entries: Seq<Option<String>>, k: int) -> Seq<char>
    decreases k,
{
    if k <= 0 {
        Seq::empty()
    } else {
        indicator_where_spec(entries, k - 1) + match entries[k - 1] {
            Some(n) => if k - 1 == 0 { name_condition(n@) } else { " or "@ + name_condition(n@) },
            None => Seq::empty(),
        }
    }
}

/// The `WHERE` clause for the indicators named in a filter's `name` array
/// (`None` for entries that are not strings).
pub fn indicator_where_clause(entries: &Vec<Option<String>>) -> (r: String)
    ensures
        r@ == indicator_where_spec(entries@, entries@.len() as int),
{
    let mut w = String::new();
    let mut i: usize = 0;
    while i < entries.len()
        invariant
            i <= entries@.len(),
            w@ == indicator_where_spec(entries@, i as int),
        decreases entries@.len() - i,
    {
        if let Some(n) = &entries[i] {
            if i != 0 {
                w.append(" or ");
            }
            w.append("indicator.name = '");
            w.append(n.as_str());
            w.append("'");
        }
        i = i + 1;
    }
    w
}

/// The column a listing of indicators is sorted by: `name` or `token`,
/// in any case.
pub fn indicator_orderby(name: Option<&str>) -> (r: Option<&'static str>)
    ensures
        r == match name {
            Some(n) => if spec_to_lowercase(n@) == "name"@ {
                Some("indicator.name")
            } else if spec_to_lowercase(n@) == "token"@ {
                Some("indicator.token")
            } else {
                None::<&'static str>
            },
            None => None,
        },
{
    match name {
        Some(n) => {
            let lower = to_lowercase(n);
            if str_eq(lower.as_str(), "name") {
                Some("indicator.name")
            } else if str_eq(lower.as_str(), "token") {
                Some("indicator.token")
            } else {
                None
            }
        },
        None => None,
    }
}

/// What a request to delete indicators asks for.
#[derive(Clone, Copy, Debug, PartialEq, Eq, Structural)]
pub enum IndicatorDeletion {
    /// Neither every indicator nor one name, or both at once.
    BadRequest,
    All,
    Named,
}

/// What a request to delete indicators asks for: every indicator when its
/// `all` parameter is `true` (in any case) and no name is given, the named
/// indicator when a name is given without `all`.
pub fn indicator_deletion(all: Option<&str>, has_name: bool) -> (r: IndicatorDeletion)
    ensures
        r == {
            let is_all = all matches Some(a) && spec_to_lowercase(a@) == "true"@;
            if is_all == has_name {
                IndicatorDeletion::BadRequest
            } else if is_all {
                IndicatorDeletion::All
            } else {
                IndicatorDeletion::Named
            }
        },
{
    let is_all = match all {
        Some(a) => {
            let lower = to_lowercase(a);
            str_eq(lower.as_str(), "true")
        },
        None => false,
    };
    if is_all == has_name {
        IndicatorDeletion::BadRequest
    } else if is_all {
        IndicatorDeletion::All
    } else {
        IndicatorDeletion::Named
    }
}

/// The status of the reply to a deletion that removed `rows` indicators:
/// a bad request when none was removed.
pub fn deletion_status(rows: usize) -> (r: u16)
    ensures
        r == if rows == 0 { 400u16 } else { 200u16 },
{
    if rows == 0 { 400 } else { 200 }
}

/// Whether a request to add an indicator has what it needs: a name, a
/// token and a data source (the token being a set of token lists).
pub fn indicator_addable(has_name: bool, token_valid: Option<bool>, has_data_source: bool) -> (r: Option<bool>)
    ensures
        r == if has_name && token_valid is Some && has_data_source { token_valid } else { None },
{
    if has_name && has_data_source {
        match token_valid {
            Some(v) => Some(v),
            None => None,
        }
    } else {
        None
    }
}

/// Whether an update request changes anything: it gives at least one of
/// a new name, data source, description or token.
pub fn indicator_update_requested(name: bool, data_source: bool, description: bool, token: bool) -> (r: bool)
    ensures
        r == (name || data_source || description || token),
{
    name || data_source || description || token
}

/// Whether an indicator update succeeded: the database function reports
/// exactly one change.
pub fn indicator_updated(result: i32) -> (r: bool)
    ensures
        r == (result == 1),
{
    result == 1
}

} // verus!
