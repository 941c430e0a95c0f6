//! Cluster updates of the first central-repository database, where the
//! example ids are stored as MessagePack and sizes as decimal text.

use vstd::prelude::*;
use crate::examples::{largest_sorted, merge_cluster_examples as merge_ids, MAX_EXAMPLE_NUM};
use crate::api_service::service::SelectCluster;
use crate::db::models::Example;
use crate::kafka_consumer::fetch::bytes_to_string;
use crate::reviewd::database::cluster::ClusterUpdate;
use crate::text::latin1;
use crate::text::{decimal, parse_usize, parse_usize_spec, u64_to_string};

verus! {

/// The bytes `rmp_serde::encode::to_vec` writes for a list of ids, or
/// `None` when it reports an error.
pub uninterp spec fn msgpack_of_ids(ids: Seq<u64>) -> Option<Seq<u8>>;

/// The list of ids `rmp_serde::decode::from_slice` reads from bytes, or
/// `None` when it reports an error.
pub uninterp spec fn ids_of_msgpack(bytes: Seq<u8>) -> Option<Seq<u64>>;

/// Calls `rmp_serde::encode::to_vec` on a list of ids; the bytes, or
/// whether it failed, are named `msgpack_of_ids` of the ids.
#[verifier::external_body]
pub(crate) fn encode_ids(ids: &Vec<u64>) -> (r: Option<Vec<u8>>)
    ensures
        match r {
            Some(b) => msgpack_of_ids(ids@) == Some(b@),
            None => msgpack_of_ids(ids@) is None,
        },
{
    rmp_serde::encode::to_vec(ids).ok()
}

/// Calls `rmp_serde::decode::from_slice` for a list of ids; the ids, or
/// whether it failed, are named `ids_of_msgpack` of the bytes.
#[verifier::external_body]
pub(crate) fn decode_ids(bytes: &[u8]) -> (r: Option<Vec<u64>>)
    ensures
        match r {
            Some(v) => ids_of_msgpack(bytes@) == Some(v@),
            None => ids_of_msgpack(bytes@) is None,
        },
{
    rmp_serde::decode::from_slice::<Vec<u64>>(bytes).ok()
}

/// The encoded ids, or `fallback` when encoding fails.
pub open spec fn encoded_or(ids: Seq<u64>, fallback: Option<Seq<u8>>) -> Option<Seq<u8>> {
    match msgpack_of_ids(ids) {
        Some(b) => Some(b),
        None => fallback,
    }
}

/// The stored examples after a merge: without new ids the current bytes;
/// with `MAX_EXAMPLE_NUM` or more new ids those ids alone, encoded; else
/// the decoded current ids followed by the new ones (the largest
/// `MAX_EXAMPLE_NUM`, sorted, when there are more), encoded. Bytes that do
/// not decode, and encodings that fail, leave the current bytes. Without
/// current bytes and fewer new ids, there are none.
pub open spec fn merged_encoded(current: Option<Seq<u8>>, new: Option<Seq<u64>>, r: Option<Seq<u8>>) -> bool {
    match new {
        None => r == current,
        Some(n) => if n.len() >= MAX_EXAMPLE_NUM {
            r == encoded_or(n, current)
        } else {
            match current {
                None => r is None,
                Some(c) => match ids_of_msgpack(c) {
                    None => r == Some(c),
                    Some(eg) => {
                        let all = eg + n;
                        if all.len() > MAX_EXAMPLE_NUM {
                            exists|t: Seq<u64>| largest_sorted(all, t, MAX_EXAMPLE_NUM as nat) && r == encoded_or(t, Some(c))
                        } else {
                            r == encoded_or(all, Some(c))
                        }
                    },
                },
            }
        },
    }
}

/// The ids a merge can draw on: the decoded current ids (none when there
/// are none or they do not decode) and the new ones.
pub open spec fn merge_sources(current: Option<Seq<u8>>, n: Seq<u64>) -> Seq<u64> {
    match current {
        Some(c) => match ids_of_msgpack(c) {
            Some(eg) => eg + n,
            None => n,
        },
        None => n,
    }
}

/// A merge of example ids into encoded ones either leaves the stored bytes
/// as they were, or stores the encoding of ids drawn from the current and
/// new ones, at most `MAX_EXAMPLE_NUM` of them unless at least that many
/// new ids came in.
pub proof fn law_encoded_merge_draws_on_sources(current: Option<Seq<u8>>, new: Option<Seq<u64>>, r: Option<Seq<u8>>)
    requires
        merged_encoded(current, new, r),
    ensures
        r == current || (new matches Some(n) && exists|t: Seq<u64>| #[trigger] msgpack_of_ids(t) == r
            && t.to_multiset().subset_of(merge_sources(current, n).to_multiset())
            && (n.len() < MAX_EXAMPLE_NUM ==> t.len() <= MAX_EXAMPLE_NUM)),
{
    broadcast use vstd::seq_lib::group_to_multiset_ensures;
    if let Some(n) = new {
        if r != current {
            let src = merge_sources(current, n);
            if n.len() >= MAX_EXAMPLE_NUM {
                assert(msgpack_of_ids(n) == r);
                if let Some(c) = current {
                    if let Some(eg) = ids_of_msgpack(c) {
                        vstd::seq_lib::lemma_multiset_commutative(eg, n);
                        assert(src.to_multiset() =~= eg.to_multiset().add(n.to_multiset()));
                        broadcast use vstd::multiset::group_multiset_axioms;
                        assert(n.to_multiset().subset_of(src.to_multiset()));
                    }
                }
            } else {
                let c = current->0;
                let eg = ids_of_msgpack(c)->0;
                let all = eg + n;
                assert(src == all);
                if all.len() > MAX_EXAMPLE_NUM {
                    let t = choose|t: Seq<u64>| largest_sorted(all, t, MAX_EXAMPLE_NUM as nat) && r == encoded_or(t, Some(c));
                    assert(msgpack_of_ids(t) == r);
                } else {
                    assert(msgpack_of_ids(all) == r);
                }
            }
        }
    }
}

/// Merges new example ids into the encoded current ones.
pub fn merge_cluster_examples(current_examples: Option<Vec<u8>>, new_examples: Option<Vec<u64>>) -> (r: Option<Vec<u8>>)
    ensures
        merged_encoded(
            match current_examples { Some(c) => Some(c@), None => None },
            match new_examples { Some(n) => Some(n@), None => None },
            match r { Some(b) => Some(b@), None => None },
        ),
{
    match new_examples {
        None => current_examples,
        Some(new_examples) => {
            if new_examples.len() >= MAX_EXAMPLE_NUM {
                match encode_ids(&new_examples) {
                    Some(b) => Some(b),
                    None => current_examples,
                }
            } else {
                match current_examples {
                    None => None,
                    Some(current_eg) => match decode_ids(current_eg.as_slice()) {
                        None => Some(current_eg),
                        Some(eg) => {
                            let merged = merge_ids(Some(eg), Some(new_examples));
                            match merged {
                                Some(t) => match encode_ids(&t) {
                                    Some(b) => Some(b),
                                    None => Some(current_eg),
                                },
                                None => Some(current_eg),
                            }
                        },
                    },
                }
            }
        },
    }
}

/// The size text of a cluster after `new_size` more events: the sum with
/// the current size when that is a number and the sum fits in `usize`,
/// `new_size` alone when it does not fit, and the current text unchanged
/// when it is not a number or no new size is given.
pub open spec fn updated_size_spec(current: Seq<char>, new_size: Option<usize>) -> Seq<char> {
    match new_size {
        Some(n) => match parse_usize_spec(current) {
            Some(c) => if n > usize::MAX - c {
                decimal(n as nat)
            } else {
                decimal((c + n) as nat)
            },
            None => current,
        },
        None => current,
    }
}

/// The size text of a cluster after `new_size` more events.
pub fn updated_size(current: &String, new_size: Option<usize>) -> (r: String)
    ensures
        r@ == updated_size_spec(current@, new_size),
{
    match new_size {
        Some(n) => match parse_usize(current.as_str()) {
            Some(c) => if n > usize::MAX - c {
                u64_to_string(n as u64)
            } else {
                u64_to_string((c + n) as u64)
            },
            None => current.clone(),
        },
        None => current.clone(),
    }
}

/// A cluster row of the first central repository as it is written back:
/// its identity, its category, qualifier and status, its encoded example
/// ids, its signature and its size text.
pub struct ClusterRow {
    pub cluster_id: String,
    pub category_id: i32,
    pub detector_id: i32,
    pub event_ids: Option<Vec<u8>>,
    pub raw_event_id: Option<i32>,
    pub qualifier_id: i32,
    pub status_id: i32,
    pub signature: String,
    pub size: String,
    pub data_source_id: i32,
}

/// A cluster row as it is read before an update.
pub struct StoredClusterRow {
    pub cluster_id: Option<String>,
    pub signature: String,
    pub event_ids: Option<Vec<u8>>,
    pub raw_event_id: Option<i32>,
    pub size: String,
    pub category_id: i32,
    pub qualifier_id: i32,
    pub status_id: i32,
}

/// The category a new cluster is filed under.
pub const NEW_CATEGORY_ID: i32 = 1;
/// The qualifier a new cluster starts with.
pub const NEW_QUALIFIER_ID: i32 = 2;
/// The status a new cluster starts with.
pub const NEW_STATUS_ID: i32 = 2;

/// The example ids of an update, encoded; none when it has none or the
/// encoding fails.
pub open spec fn encoded_ids(ids: Option<Vec<u64>>) -> Option<Seq<u8>> {
    match ids {
        Some(v) => msgpack_of_ids(v@),
        None => None,
    }
}

/// The bytes of stored example ids.
pub open spec fn bytes_view(b: Option<Vec<u8>>) -> Option<Seq<u8>> {
    match b {
        Some(v) => Some(v@),
        None => None,
    }
}

/// What is written for a cluster not yet stored: nothing for data source
/// id 0; else the defaults for category, qualifier and status, no raw
/// event, the reported signature or `-`, the reported size or `1`, the
/// encoded ids.
pub open spec fn first_new_row_ok(c: ClusterUpdate, data_source_id: i32, r: Option<ClusterRow>) -> bool {
    &&& data_source_id == 0 <==> r is None
    &&& r matches Some(row) ==> {
        &&& row.cluster_id@ == c.cluster_id@
        &&& row.category_id == NEW_CATEGORY_ID
        &&& row.detector_id == c.detector_id
        &&& bytes_view(row.event_ids) == encoded_ids(c.event_ids)
        &&& row.raw_event_id is None
        &&& row.qualifier_id == NEW_QUALIFIER_ID
        &&& row.status_id == NEW_STATUS_ID
        &&& row.signature@ == match c.signature { Some(s) => s@, None => "-"@ }
        &&& row.size@ == match c.size { Some(n) => decimal(n as nat), None => "1"@ }
        &&& row.data_source_id == data_source_id
    }
}

/// What is written for a cluster already stored: nothing without reported
/// ids or for data source id 0; else the stored category, qualifier,
/// status and raw event, the reported signature or the stored one, the
/// merged examples and the added-up size.
pub open spec fn first_replacement_ok(c: ClusterUpdate, stored: StoredClusterRow, data_source_id: i32, r: Option<ClusterRow>) -> bool {
    &&& (c.event_ids is None || data_source_id == 0) <==> r is None
    &&& r matches Some(row) ==> {
        &&& row.cluster_id@ == c.cluster_id@
        &&& row.category_id == stored.category_id
        &&& row.detector_id == c.detector_id
        &&& merged_encoded(bytes_view(stored.event_ids), match c.event_ids { Some(n) => Some(n@), None => None }, bytes_view(row.event_ids))
        &&& row.raw_event_id == stored.raw_event_id
        &&& row.qualifier_id == stored.qualifier_id
        &&& row.status_id == stored.status_id
        &&& row.signature@ == match c.signature { Some(s) => s@, None => stored.signature@ }
        &&& row.size@ == updated_size_spec(stored.size@, c.size)
        &&& row.data_source_id == data_source_id
    }
}

/// The row written for a cluster not yet stored: category, qualifier and
/// status take their defaults, no raw event is linked, the signature is
/// the given one or `-`, the size is the given one or `1`, and the example
/// ids are encoded. A data source id of 0 (one that could not be had)
/// writes no row.
pub fn new_cluster_row(c: &ClusterUpdate, data_source_id: i32) -> (r: Option<ClusterRow>)
    ensures
        first_new_row_ok(*c, data_source_id, r),
        data_source_id == 0 <==> r is None,
        r matches Some(row) ==> {
            &&& row.cluster_id@ == c.cluster_id@
            &&& row.category_id == NEW_CATEGORY_ID
            &&& row.detector_id == c.detector_id
            &&& bytes_view(row.event_ids) == encoded_ids(c.event_ids)
            &&& row.raw_event_id is None
            &&& row.qualifier_id == NEW_QUALIFIER_ID
            &&& row.status_id == NEW_STATUS_ID
            &&& row.signature@ == match c.signature { Some(s) => s@, None => "-"@ }
            &&& row.size@ == match c.size { Some(n) => decimal(n as nat), None => "1"@ }
            &&& row.data_source_id == data_source_id
        },
{
    if data_source_id == 0 {
        return None;
    }
    let event_ids = match &c.event_ids {
        Some(eg) => encode_ids(eg),
        None => None,
    };
    let signature = match &c.signature {
        Some(sig) => sig.clone(),
        None => String::from_str("-"),
    };
    let size = match c.size {
        Some(n) => u64_to_string(n as u64),
        None => String::from_str("1"),
    };
    Some(ClusterRow {
        cluster_id: c.cluster_id.clone(),
        category_id: NEW_CATEGORY_ID,
        detector_id: c.detector_id,
        event_ids,
        raw_event_id: None,
        qualifier_id: NEW_QUALIFIER_ID,
        status_id: NEW_STATUS_ID,
        signature,
        size,
        data_source_id,
    })
}

/// The row written for a cluster already stored: an update without
/// example ids writes nothing, as does a data source id of 0. Otherwise
/// the category, qualifier, status and raw event stay, the signature is
/// the new one or the stored one, the examples are merged and the size is
/// added to.
pub fn replacement_cluster_row(c: &ClusterUpdate, stored: &StoredClusterRow, data_source_id: i32) -> (r: Option<ClusterRow>)
    ensures
        first_replacement_ok(*c, *stored, data_source_id, r),
        (c.event_ids is None || data_source_id == 0) <==> r is None,
        r matches Some(row) ==> {
            &&& row.cluster_id@ == c.cluster_id@
            &&& row.category_id == stored.category_id
            &&& row.detector_id == c.detector_id
            &&& merged_encoded(bytes_view(stored.event_ids), match c.event_ids { Some(n) => Some(n@), None => None }, bytes_view(row.event_ids))
            &&& row.raw_event_id == stored.raw_event_id
            &&& row.qualifier_id == stored.qualifier_id
            &&& row.status_id == stored.status_id
            &&& row.signature@ == match c.signature { Some(s) => s@, None => stored.signature@ }
            &&& row.size@ == updated_size_spec(stored.size@, c.size)
            &&& row.data_source_id == data_source_id
        },
{
    let new_ids = match &c.event_ids {
        Some(eg) => eg.clone(),
        None => return None,
    };
    if data_source_id == 0 {
        return None;
    }
    let current = match &stored.event_ids {
        Some(b) => Some(b.clone()),
        None => None,
    };
    let event_ids = merge_cluster_examples(current, Some(new_ids));
    let signature = match &c.signature {
        Some(sig) => sig.clone(),
        None => stored.signature.clone(),
    };
    Some(ClusterRow {
        cluster_id: c.cluster_id.clone(),
        category_id: stored.category_id,
        detector_id: c.detector_id,
        event_ids,
        raw_event_id: stored.raw_event_id,
        qualifier_id: stored.qualifier_id,
        status_id: stored.status_id,
        signature,
        size: updated_size(&stored.size, c.size),
        data_source_id,
    })
}

/// The query that lists the clusters of the first central repository with
/// their category, qualifier, status and data source.
pub open spec fn select_clusters_spec(where_clause: Option<Seq<char>>, limit: Option<i64>) -> Seq<char> {
    "SELECT * FROM clusters INNER JOIN category ON clusters.category_id = category.category_id INNER JOIN qualifier ON clusters.qualifier_id = qualifier.qualifier_id INNER JOIN status ON clusters.status_id = status.status_id INNER JOIN data_source ON clusters.data_source_id = data_source.data_source_id"@
        + match where_clause { Some(w) => " WHERE "@ + w, None => Seq::empty() }
        + match limit { Some(l) => " LIMIT "@ + crate::text::signed_decimal(l as int), None => Seq::empty() }
        + ";"@
}

/// The query that lists the clusters, with a `WHERE` clause and a limit
/// when given.
pub fn select_clusters_query(where_clause: &Option<String>, limit: Option<i64>) -> (r: String)
    ensures
        r@ == select_clusters_spec(match where_clause { Some(w) => Some(w@), None => None }, limit),
{
    let mut q = String::from_str("SELECT * FROM clusters INNER JOIN category ON clusters.category_id = category.category_id INNER JOIN qualifier ON clusters.qualifier_id = qualifier.qualifier_id INNER JOIN status ON clusters.status_id = status.status_id INNER JOIN data_source ON clusters.data_source_id = data_source.data_source_id");
    if let Some(w) = where_clause {
        q.append(" WHERE ");
        q.append(w.as_str());
    }
    if let Some(l) = limit {
        q.append(" LIMIT ");
        q.append(crate::text::i64_to_string(l).as_str());
    }
    q.append(";");
    q
}

/// The size a listed cluster shows: its stored size text as a number, or
/// 0 when the text is no number.
pub fn shown_size(size: &str) -> (r: usize)
    ensures
        r == match parse_usize_spec(size@) { Some(n) => n, None => 0 },
{
    match parse_usize(size) {
        Some(n) => n,
        None => 0,
    }
}

/// A cluster row of the first central repository joined with its category,
/// qualifier, status and data source, and with the raw event it links to
/// when that could be read.
pub struct JoinedClusterRow {
    pub cluster_id: Option<String>,
    pub detector_id: i32,
    pub qualifier: String,
    pub status: String,
    pub category: String,
    pub signature: String,
    pub data_source: String,
    pub size: String,
    pub event_ids: Option<Vec<u8>>,
    pub raw_event: Option<Vec<u8>>,
    pub last_modification_time: Option<i64>,
}

/// A listed cluster: the selected columns of a row, the others absent.
pub struct SelectedCluster {
    pub cluster_id: Option<String>,
    pub detector_id: Option<i32>,
    pub qualifier: Option<String>,
    pub status: Option<String>,
    pub category: Option<String>,
    pub signature: Option<String>,
    pub data_source: Option<String>,
    pub size: Option<usize>,
    pub examples: Option<Example>,
    pub last_modification_time: Option<i64>,
}

/// A text column: present, with the row's text, exactly when selected.
pub open spec fn text_column(selected: bool, out: Option<String>, value: Seq<char>) -> bool {
    match out {
        Some(t) => selected && t@ == value,
        None => !selected,
    }
}

/// A listed cluster holds exactly the selected columns of its row: the
/// size as a number (0 when its text is none), and the examples when they
/// decode, with the linked raw event as text (`-` when there is none).
pub open spec fn selected_spec(row: JoinedClusterRow, select: SelectCluster, r: SelectedCluster) -> bool {
    &&& r.cluster_id == (if select.cluster_id { row.cluster_id } else { None })
    &&& r.detector_id == (if select.detector_id { Some(row.detector_id) } else { None })
    &&& text_column(select.qualifier, r.qualifier, row.qualifier@)
    &&& text_column(select.status, r.status, row.status@)
    &&& text_column(select.category, r.category, row.category@)
    &&& text_column(select.signature, r.signature, row.signature@)
    &&& text_column(select.data_source, r.data_source, row.data_source@)
    &&& r.size == (if select.size { Some(match parse_usize_spec(row.size@) { Some(n) => n, None => 0 }) } else { None })
    &&& match r.examples {
        Some(e) => select.examples && (row.event_ids matches Some(b) && ids_of_msgpack(b@) == Some(e.event_ids@))
            && e.raw_event@ == match row.raw_event { Some(raw) => raw@.map_values(|x: u8| latin1(x)), None => "-"@ },
        None => !select.examples || (match row.event_ids { Some(b) => ids_of_msgpack(b@) is None, None => true }),
    }
    &&& r.last_modification_time == (if select.last_modification_time { row.last_modification_time } else { None })
}

fn text_if(selected: bool, value: &String) -> (r: Option<String>)
    ensures
        text_column(selected, r, value@),
{
    if selected { Some(value.clone()) } else { None }
}

/// The selected columns of a listed row.
pub fn selected_cluster(row: &JoinedClusterRow, select: SelectCluster) -> (r: SelectedCluster)
    ensures
        selected_spec(*row, select, r),
{
    let cluster_id = if select.cluster_id {
        match &row.cluster_id {
            Some(c) => Some(c.clone()),
            None => None,
        }
    } else {
        None
    };
    let examples = if select.examples {
        match &row.event_ids {
            Some(b) => match decode_ids(b.as_slice()) {
                Some(ids) => {
                    let raw_event = match &row.raw_event {
                        Some(raw) => bytes_to_string(raw.as_slice()),
                        None => String::from_str("-"),
                    };
                    Some(Example { raw_event, event_ids: ids })
                },
                None => None,
            },
            None => None,
        }
    } else {
        None
    };
    SelectedCluster {
        cluster_id,
        detector_id: if select.detector_id { Some(row.detector_id) } else { None },
        qualifier: text_if(select.qualifier, &row.qualifier),
        status: text_if(select.status, &row.status),
        category: text_if(select.category, &row.category),
        signature: text_if(select.signature, &row.signature),
        data_source: text_if(select.data_source, &row.data_source),
        size: if select.size { Some(shown_size(row.size.as_str())) } else { None },
        examples,
        last_modification_time: if select.last_modification_time { row.last_modification_time } else { None },
    }
}

/// The listed clusters: one per row, in order, each with the selected
/// columns of its row only.
pub fn selected_clusters(rows: &Vec<JoinedClusterRow>, select: SelectCluster) -> (r: Vec<SelectedCluster>)
    ensures
        r@.len() == rows@.len(),
        forall|i: int| 0 <= i < rows@.len() ==> selected_spec(rows@[i], select, #[trigger] r@[i]),
{
    let mut r: Vec<SelectedCluster> = Vec::new();
    let mut i: usize = 0;
    while i < rows.len()
        invariant
            i <= rows@.len(),
            r@.len() == i,
            forall|k: int| 0 <= k < i ==> selected_spec(rows@[k], select, #[trigger] r@[k]),
        decreases rows@.len() - i,
    {
        r.push(selected_cluster(&rows[i], select));
        i = i + 1;
    }
    r
}

/// The size after a report adds the reported size to a stored size that is
/// a number, while the sum fits in a `usize`; only past that is it reset
/// to the reported size. A stored size that is no number, or a report
/// without a size, leaves the text as it was. Reading the new size back
/// gives the sum.
pub proof fn law_updated_size_adds(current: Seq<char>, c: usize, n: usize)
    ensures
        parse_usize_spec(current) == Some(c) && c + n <= usize::MAX ==> {
            &&& updated_size_spec(current, Some(n)) == decimal((c + n) as nat)
            &&& parse_usize_spec(updated_size_spec(current, Some(n))) == Some((c + n) as usize)
        },
        parse_usize_spec(current) == Some(c) && c + n > usize::MAX ==> updated_size_spec(current, Some(n)) == decimal(n as nat),
        parse_usize_spec(current) is None ==> updated_size_spec(current, Some(n)) == current,
        updated_size_spec(current, None) == current,
{
    if parse_usize_spec(current) == Some(c) && c + n <= usize::MAX {
        crate::text::law_u64_text_round_trip((c + n) as u64);
    }
}

/// A cluster not yet stored in the first central repository is written
/// with category 1, qualifier 2 and status 2, no raw event, signature "-"
/// and size "1" unless reported; a stored one keeps its category,
/// qualifier, status and raw event, and takes the reported signature when
/// there is one. Neither is written for data source id 0, nor a stored one
/// without reported example ids.
pub proof fn law_first_repository_rows(
    c: ClusterUpdate,
    stored: StoredClusterRow,
    data_source_id: i32,
    new_row: Option<ClusterRow>,
    replaced: Option<ClusterRow>,
)
    requires
        first_new_row_ok(c, data_source_id, new_row),
        first_replacement_ok(c, stored, data_source_id, replaced),
    ensures
        new_row is None <==> data_source_id == 0,
        new_row matches Some(row) ==> row.category_id == 1 && row.qualifier_id == 2 && row.status_id == 2 && row.raw_event_id is None,
        new_row matches Some(row) ==> (c.signature is None ==> row.signature@ == "-"@) && (c.size is None ==> row.size@ == "1"@),
        replaced is None <==> (c.event_ids is None || data_source_id == 0),
        replaced matches Some(row) ==> row.category_id == stored.category_id && row.qualifier_id == stored.qualifier_id
            && row.status_id == stored.status_id && row.raw_event_id == stored.raw_event_id,
        replaced matches Some(row) ==> (c.signature is None ==> row.signature@ == stored.signature@),
{
}

} // verus!
