//! How reviewd updates clusters: which columns an update changes, how new
//! cluster reports are merged with stored clusters, and which data sources
//! need their benign signatures announced.

use vstd::prelude::*;
use crate::examples::{merge_cluster_examples, merged_examples};
use crate::text::str_eq;

verus! {

/// Cluster sizes are reset to the new size once the sum reaches this.
pub const MAX_CLUSTER_SIZE: u128 = 100_000_000_000_000_000_000;

/// The category a newly reported cluster gets.
pub const DEFAULT_CATEGORY_ID: i32 = 1;

/// The qualifier ("unknown") a newly reported cluster gets.
pub const DEFAULT_QUALIFIER_ID: i32 = 2;

/// The status ("pending review") a newly reported cluster gets.
pub const DEFAULT_STATUS_ID: i32 = 2;

/// The new values a user gives a cluster; absent ones stay unchanged.
pub struct NewClusterValues {
    pub cluster_id: Option<String>,
    pub category: Option<String>,
    pub qualifier: Option<String>,
}

/// The columns an update sets; absent ones are left unchanged.
pub struct ClusterChange {
    pub cluster_id: Option<String>,
    pub category_id: Option<i32>,
    pub qualifier_id: Option<i32>,
    pub status_id: Option<i32>,
}

/// The change an update makes: the given cluster id, category and
/// qualifier, and the "reviewed" status whenever a qualifier is set; none
/// when nothing is given.
pub open spec fn change_spec(
    cluster_id: Option<String>,
    category_id: Option<i32>,
    qualifier_id: Option<i32>,
    status_id: i32,
) -> Option<ClusterChange> {
    if cluster_id is None && category_id is None && qualifier_id is None {
        None
    } else {
        Some(ClusterChange {
            cluster_id,
            category_id,
            qualifier_id,
            status_id: if qualifier_id is Some { Some(status_id) } else { None },
        })
    }
}

/// The columns to set for an update of a cluster, given the new cluster id
/// and the ids the new category and qualifier were found under; `None`
/// (an error) when there is nothing to set.
pub fn cluster_change(
    cluster_id: Option<String>,
    category_id: Option<i32>,
    qualifier_id: Option<i32>,
    status_id: i32,
) -> (r: Option<ClusterChange>)
    ensures
        r == change_spec(cluster_id, category_id, qualifier_id, status_id),
{
    match (cluster_id, category_id, qualifier_id) {
        (Some(c), Some(g), Some(q)) => Some(ClusterChange { cluster_id: Some(c), category_id: Some(g), qualifier_id: Some(q), status_id: Some(status_id) }),
        (Some(c), Some(g), None) => Some(ClusterChange { cluster_id: Some(c), category_id: Some(g), qualifier_id: None, status_id: None }),
        (Some(c), None, Some(q)) => Some(ClusterChange { cluster_id: Some(c), category_id: None, qualifier_id: Some(q), status_id: Some(status_id) }),
        (None, Some(g), Some(q)) => Some(ClusterChange { cluster_id: None, category_id: Some(g), qualifier_id: Some(q), status_id: Some(status_id) }),
        (Some(c), None, None) => Some(ClusterChange { cluster_id: Some(c), category_id: None, qualifier_id: None, status_id: None }),
        (None, Some(g), None) => Some(ClusterChange { cluster_id: None, category_id: Some(g), qualifier_id: None, status_id: None }),
        (None, None, Some(q)) => Some(ClusterChange { cluster_id: None, category_id: None, qualifier_id: Some(q), status_id: Some(status_id) }),
        (None, None, None) => None,
    }
}

/// An update sets exactly the given cluster id, category and qualifier;
/// giving a qualifier marks the cluster reviewed (its status becomes the
/// reviewed status), and an update without a qualifier leaves the status
/// alone. An update that gives nothing is refused.
pub proof fn law_change_marks_reviewed(cluster_id: Option<String>, category_id: Option<i32>, qualifier_id: Option<i32>, status_id: i32)
    ensures
        change_spec(cluster_id, category_id, qualifier_id, status_id) is None
            <==> (cluster_id is None && category_id is None && qualifier_id is None),
        change_spec(cluster_id, category_id, qualifier_id, status_id) matches Some(c) ==> {
            &&& c.cluster_id == cluster_id
            &&& c.category_id == category_id
            &&& c.qualifier_id == qualifier_id
        },
        qualifier_id is Some ==> (change_spec(cluster_id, category_id, qualifier_id, status_id) matches Some(c)
            && c.status_id == Some(status_id)),
        qualifier_id is None ==> (change_spec(cluster_id, category_id, qualifier_id, status_id) matches Some(c) ==> c.status_id is None),
{
}

/// The status a reviewed cluster gets: the id of "reviewed", or 1 when
/// that status is not found.
pub fn reviewed_status_id(found: Option<i32>) -> (r: i32)
    ensures
        r == match found { Some(id) => id, None => 1 },
{
    match found {
        Some(id) => id,
        None => 1,
    }
}

/// Whether an update marks a cluster benign.
pub fn is_benign(qualifier: &Option<String>) -> (r: bool)
    ensures
        r == (qualifier matches Some(q) && q@ == "benign"@),
{
    match qualifier {
        Some(q) => str_eq(q.as_str(), "benign"),
        None => false,
    }
}

/// The size of a cluster after a report of `new_size` events: the sum
/// with the stored size while it stays below `MAX_CLUSTER_SIZE`, otherwise
/// the new size alone; the stored size when the report gives none.
pub fn updated_cluster_size(current: u128, new_size: Option<usize>) -> (r: u128)
    requires
        current <= u128::MAX - usize::MAX,
    ensures
        r == match new_size {
            Some(n) => if n + current < MAX_CLUSTER_SIZE { (n + current) as u128 } else { n as u128 },
            None => current,
        },
{
    match new_size {
        Some(n) => {
            let sum = (n as u128) + current;
            if sum < MAX_CLUSTER_SIZE {
                sum
            } else {
                n as u128
            }
        },
        None => current,
    }
}

/// A cluster as a sensor reports it.
pub struct ClusterUpdate {
    pub cluster_id: String,
    pub detector_id: i32,
    pub signature: Option<String>,
    pub data_source: String,
    pub data_source_type: String,
    pub size: Option<usize>,
    pub event_ids: Option<Vec<u64>>,
}

/// A cluster as it is stored.
pub struct StoredCluster {
    pub cluster_id: Option<String>,
    pub signature: String,
    pub event_ids: Option<Vec<u64>>,
    pub raw_event_id: i32,
    pub size: u128,
    pub category_id: i32,
    pub qualifier_id: i32,
    pub status_id: i32,
}

/// A cluster row to write (insert, or replace the stored one).
pub struct ClusterRow {
    pub cluster_id: String,
    pub category_id: i32,
    pub detector_id: i32,
    pub event_ids: Option<Vec<u64>>,
    pub raw_event_id: i32,
    pub qualifier_id: i32,
    pub status_id: i32,
    pub signature: String,
    pub size: u128,
    pub data_source_id: i32,
    pub touched: bool,
}

/// A stored cluster carries cluster id `id`.
pub open spec fn has_cluster_id(c: StoredCluster, id: Seq<char>) -> bool {
    c.cluster_id matches Some(x) && x@ == id
}

/// `i` is the first stored cluster with cluster id `id`.
pub open spec fn is_first_stored(stored: Seq<StoredCluster>, i: int, id: Seq<char>) -> bool {
    &&& 0 <= i < stored.len()
    &&& has_cluster_id(stored[i], id)
    &&& forall|j: int| 0 <= j < i ==> !has_cluster_id(#[trigger] stored[j], id)
}

/// No stored cluster has cluster id `id`.
pub open spec fn none_stored(stored: Seq<StoredCluster>, id: Seq<char>) -> bool {
    forall|j: int| 0 <= j < stored.len() ==> !has_cluster_id(#[trigger] stored[j], id)
}

/// The position of the first stored cluster with cluster id `id`.
pub fn find_stored(stored: &Vec<StoredCluster>, id: &str) -> (r: Option<usize>)
    ensures
        match r {
            Some(i) => is_first_stored(stored@, i as int, id@),
            None => none_stored(stored@, id@),
        },
{
    let mut i: usize = 0;
    while i < stored.len()
        invariant
            i <= stored@.len(),
            forall|j: int| 0 <= j < i ==> !has_cluster_id(#[trigger] stored@[j], id@),
        decreases stored@.len() - i,
    {
        let hit = match &stored[i].cluster_id {
            Some(c) => str_eq(c.as_str(), id),
            None => false,
        };
        if hit {
            return Some(i);
        }
        i = i + 1;
    }
    None
}

/// A copy of a list of ids.
fn copy_ids(v: &Vec<u64>) -> (r: Vec<u64>)
    ensures
        r@ == v@,
{
    let mut r: Vec<u64> = Vec::new();
    let mut i: usize = 0;
    while i < v.len()
        invariant
            i <= v@.len(),
            r@ == v@.take(i as int),
        decreases v@.len() - i,
    {
        r.push(v[i]);
        i = i + 1;
        assert(r@ =~= v@.take(i as int));
    }
    assert(v@.take(i as int) =~= v@);
    r
}

/// The ids of an optional list, as plain sequences.
pub open spec fn ids_view(v: Option<Vec<u64>>) -> Option<Seq<u64>> {
    match v {
        Some(x) => Some(x@),
        None => None,
    }
}

/// A copy of an optional list of ids.
fn copy_opt_ids(v: &Option<Vec<u64>>) -> (r: Option<Vec<u64>>)
    ensures
        ids_view(r) == ids_view(*v),
{
    match v {
        Some(x) => Some(copy_ids(x)),
        None => None,
    }
}

/// The row written for a reported cluster that is already stored: its
/// category, qualifier, status and raw event stay; the signature is the
/// reported one or the stored one; example ids are merged; the size grows
/// by the reported size. None when the report has no event ids or the
/// data source is unknown (id 0).
pub open spec fn replacement_ok(u: ClusterUpdate, s: StoredCluster, data_source_id: i32, r: Option<ClusterRow>) -> bool {
    if u.event_ids is None || data_source_id == 0 {
        r is None
    } else {
        r matches Some(row) && {
            &&& row.cluster_id@ == u.cluster_id@
            &&& row.category_id == s.category_id
            &&& row.detector_id == u.detector_id
            &&& merged_examples(ids_view(s.event_ids), ids_view(u.event_ids), ids_view(row.event_ids))
            &&& row.raw_event_id == s.raw_event_id
            &&& row.qualifier_id == s.qualifier_id
            &&& row.status_id == s.status_id
            &&& row.signature@ == match u.signature { Some(sig) => sig@, None => s.signature@ }
            &&& row.size == match u.size {
                Some(n) => if n + s.size < MAX_CLUSTER_SIZE { (n + s.size) as u128 } else { n as u128 },
                None => s.size,
            }
            &&& row.data_source_id == data_source_id
            &&& row.touched
        }
    }
}

/// The row written for a newly reported cluster: the defaults for
/// category, qualifier and status, the reported ids, signature ("-" when
/// none) and size (1 when none). None when the data source or its empty
/// raw event is unknown (id 0).
pub open spec fn new_row_ok(u: ClusterUpdate, data_source_id: i32, empty_raw_event_id: i32, r: Option<ClusterRow>) -> bool {
    if data_source_id == 0 || empty_raw_event_id == 0 {
        r is None
    } else {
        r matches Some(row) && {
            &&& row.cluster_id@ == u.cluster_id@
            &&& row.category_id == DEFAULT_CATEGORY_ID
            &&& row.detector_id == u.detector_id
            &&& ids_view(row.event_ids) == ids_view(u.event_ids)
            &&& row.raw_event_id == empty_raw_event_id
            &&& row.qualifier_id == DEFAULT_QUALIFIER_ID
            &&& row.status_id == DEFAULT_STATUS_ID
            &&& row.signature@ == match u.signature { Some(sig) => sig@, None => "-"@ }
            &&& row.size == match u.size { Some(n) => n as u128, None => 1 }
            &&& row.data_source_id == data_source_id
            &&& !row.touched
        }
    }
}

/// The row to write for a newly reported cluster.
pub fn new_cluster_row(u: &ClusterUpdate, data_source_id: i32, empty_raw_event_id: i32) -> (r: Option<ClusterRow>)
    ensures
        new_row_ok(*u, data_source_id, empty_raw_event_id, r),
{
    if data_source_id == 0 || empty_raw_event_id == 0 {
        return None;
    }
    let signature = match &u.signature {
        Some(sig) => sig.clone(),
        None => String::from_str("-"),
    };
    let size: u128 = match u.size {
        Some(n) => n as u128,
        None => 1,
    };
    Some(ClusterRow {
        cluster_id: u.cluster_id.clone(),
        category_id: DEFAULT_CATEGORY_ID,
        detector_id: u.detector_id,
        event_ids: copy_opt_ids(&u.event_ids),
        raw_event_id: empty_raw_event_id,
        qualifier_id: DEFAULT_QUALIFIER_ID,
        status_id: DEFAULT_STATUS_ID,
        signature,
        size,
        data_source_id,
        touched: false,
    })
}

/// The row to write for a reported cluster that is already stored.
pub fn replacement_row(u: &ClusterUpdate, s: &StoredCluster, data_source_id: i32) -> (r: Option<ClusterRow>)
    requires
        s.size <= u128::MAX - usize::MAX,
    ensures
        replacement_ok(*u, *s, data_source_id, r),
{
    if u.event_ids.is_none() {
        return None;
    }
    let signature = match &u.signature {
        Some(sig) => sig.clone(),
        None => s.signature.clone(),
    };
    let event_ids = merge_cluster_examples(copy_opt_ids(&s.event_ids), copy_opt_ids(&u.event_ids));
    let size = updated_cluster_size(s.size, u.size);
    if data_source_id == 0 {
        None
    } else {
        Some(ClusterRow {
            cluster_id: u.cluster_id.clone(),
            category_id: s.category_id,
            detector_id: u.detector_id,
            event_ids,
            raw_event_id: s.raw_event_id,
            qualifier_id: s.qualifier_id,
            status_id: s.status_id,
            signature,
            size,
            data_source_id,
            touched: true,
        })
    }
}

/// A newly reported cluster is written as pending review: category 1,
/// qualifier 2 (unknown), status 2 (pending review), linked to the empty
/// raw event, with signature "-" and size 1 unless reported. A reported
/// cluster already stored keeps its category, qualifier, status and raw
/// event, and its size grows by exactly the reported size while the sum
/// stays below 10^20; only past that does it restart at the reported size.
pub proof fn law_reported_cluster_rows(
    u: ClusterUpdate,
    s: StoredCluster,
    data_source_id: i32,
    empty_raw_event_id: i32,
    new_row: Option<ClusterRow>,
    replaced: Option<ClusterRow>,
)
    requires
        new_row_ok(u, data_source_id, empty_raw_event_id, new_row),
        replacement_ok(u, s, data_source_id, replaced),
    ensures
        new_row matches Some(row) ==> {
            &&& row.category_id == 1
            &&& row.qualifier_id == 2
            &&& row.status_id == 2
            &&& row.raw_event_id == empty_raw_event_id
            &&& row.size == match u.size { Some(n) => n as u128, None => 1u128 }
            &&& u.signature is None ==> row.signature@ == "-"@
        },
        new_row is None <==> (data_source_id == 0 || empty_raw_event_id == 0),
        replaced matches Some(row) ==> {
            &&& row.category_id == s.category_id
            &&& row.qualifier_id == s.qualifier_id
            &&& row.status_id == s.status_id
            &&& row.raw_event_id == s.raw_event_id
            &&& match u.size {
                Some(n) => if n + s.size < 100_000_000_000_000_000_000 { row.size == n + s.size } else { row.size == n },
                None => row.size == s.size,
            }
        },
        replaced is None <==> (u.event_ids is None || data_source_id == 0),
{
}

/// An update that changes the qualifier of a cluster.
pub struct QualifierUpdate {
    pub cluster_id: String,
    pub data_source: String,
    pub qualifier: String,
}

/// The data sources of the updates that mark a cluster benign.
pub open spec fn benign_sources(u: Seq<QualifierUpdate>) -> Set<Seq<char>> {
    Set::new(|d: Seq<char>| exists|i: int| 0 <= i < u.len() && #[trigger] u[i].data_source@ == d && u[i].qualifier@ == "benign"@)
}

/// Each data source whose benign signatures change with these updates,
/// once.
pub fn benign_data_sources(updates: &Vec<QualifierUpdate>) -> (r: Vec<String>)
    ensures
        r@.map_values(|s: String| s@).no_duplicates(),
        r@.map_values(|s: String| s@).to_set() == benign_sources(updates@),
{
    let mut r: Vec<String> = Vec::new();
    let mut i: usize = 0;
    while i < updates.len()
        invariant
            i <= updates@.len(),
            r@.map_values(|s: String| s@).no_duplicates(),
            r@.map_values(|s: String| s@).to_set() == benign_sources(updates@.take(i as int)),
        decreases updates@.len() - i,
    {
        let ghost old_r = r@.map_values(|s: String| s@);
        let u = &updates[i];
        if str_eq(u.qualifier.as_str(), "benign") {
            let mut seen = false;
            let mut k: usize = 0;
            while k < r.len()
                invariant
                    k <= r@.len(),
                    seen == (exists|m: int| 0 <= m < k && #[trigger] r@[m]@ == u.data_source@),
                decreases r@.len() - k,
            {
                if str_eq(r[k].as_str(), u.data_source.as_str()) {
                    seen = true;
                }
                k = k + 1;
            }
            if !seen {
                r.push(u.data_source.clone());
            }
            proof {
                let nr = r@.map_values(|s: String| s@);
                if !seen {
                    assert(nr =~= old_r.push(u.data_source@));
                    assert forall|a: int, b: int| 0 <= a < b < nr.len() implies nr[a] != nr[b] by {
                        if b == nr.len() - 1 {
                            assert(r@[a]@ == nr[a]);
                        }
                    }
                } else {
                    let m = choose|m: int| 0 <= m < k && #[trigger] r@[m]@ == u.data_source@;
                    assert(old_r[m] == u.data_source@);
                }
            }
        }
        proof {
            let t = updates@.take(i + 1);
            let nr = r@.map_values(|s: String| s@);
            assert(t =~= updates@.take(i as int).push(updates@[i as int]));
            assert forall|d: Seq<char>| #[trigger] nr.to_set().contains(d) == benign_sources(t).contains(d) by {
                if benign_sources(t).contains(d) {
                    let w = choose|w: int| 0 <= w < t.len() && #[trigger] t[w].data_source@ == d && t[w].qualifier@ == "benign"@;
                    if w < i {
                        assert(updates@.take(i as int)[w].data_source@ == d);
                        assert(benign_sources(updates@.take(i as int)).contains(d));
                        assert(old_r.to_set().contains(d));
                        let x = choose|x: int| 0 <= x < old_r.len() && old_r[x] == d;
                        assert(nr[x] == d);
                    } else {
                        assert(w == i);
                        if !old_r.contains(d) {
                            assert(nr[nr.len() - 1] == d);
                        } else {
                            let x = choose|x: int| 0 <= x < old_r.len() && old_r[x] == d;
                            assert(nr[x] == d);
                        }
                    }
                }
                if nr.to_set().contains(d) {
                    let x = choose|x: int| 0 <= x < nr.len() && nr[x] == d;
                    if x < old_r.len() {
                        assert(old_r.contains(d));
                        assert(benign_sources(updates@.take(i as int)).contains(d));
                        let w = choose|w: int| 0 <= w < i && #[trigger] updates@.take(i as int)[w].data_source@ == d && updates@.take(i as int)[w].qualifier@ == "benign"@;
                        assert(t[w].data_source@ == d);
                    } else {
                        assert(t[i as int].data_source@ == d);
                    }
                }
            }
            assert(nr.to_set() =~= benign_sources(t));
        }
        i = i + 1;
    }
    assert(updates@.take(i as int) =~= updates@);
    r
}

} // verus!
