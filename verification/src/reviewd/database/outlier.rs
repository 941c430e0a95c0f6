//! How reviewd stores outliers: the rows written for reported outliers,
//! their sizes and example ids, and the clusters that take over the raw
//! event of a deleted outlier.

use vstd::prelude::*;
use vstd::string::StrSliceExecFns;
use vstd::utf8::encode_utf8;
use crate::db::clusters::{decode_ids, encode_ids, ids_of_msgpack, msgpack_of_ids};
use crate::examples::{largest_sorted, merge_cluster_examples, merged_examples, MAX_EXAMPLE_NUM};
use crate::text::{decimal, parse_usize, parse_usize_spec, u64_to_string};

verus! {

/// An outlier as a sensor reports it: its raw event and the ids of the
/// events it was seen in.
pub struct OutlierUpdate {
    pub outlier: Vec<u8>,
    pub data_source: String,
    pub data_source_type: String,
    pub event_ids: Vec<u64>,
}

/// An outlier as it is stored; `event_ids` holds MessagePack bytes.
pub struct StoredOutlier {
    pub raw_event: Vec<u8>,
    pub event_ids: Vec<u8>,
    pub raw_event_id: Option<i32>,
    pub size: Option<String>,
}

/// An outlier row to write.
pub struct OutlierRow {
    pub raw_event: Vec<u8>,
    pub data_source_id: i32,
    pub event_ids: Vec<u8>,
    pub raw_event_id: Option<i32>,
    pub size: Option<String>,
}

/// The encoding of ids, or no bytes when it fails.
pub open spec fn encoded_or_empty(ids: Seq<u64>) -> Seq<u8> {
    match msgpack_of_ids(ids) {
        Some(b) => b,
        None => Seq::empty(),
    }
}

fn encode_or_empty(ids: &Vec<u64>) -> (r: Vec<u8>)
    ensures
        r@ == encoded_or_empty(ids@),
{
    match encode_ids(ids) {
        Some(b) => b,
        None => Vec::new(),
    }
}

/// The row written for a newly reported outlier: all its ids, its size
/// the number of ids, and no raw event yet. None when its data source is
/// unknown.
pub fn new_outlier_row(o: &OutlierUpdate, data_source_id: Option<i32>) -> (r: Option<OutlierRow>)
    ensures
        match data_source_id {
            None => r is None,
            Some(id) => r matches Some(row) && {
                &&& row.raw_event@ == o.outlier@
                &&& row.data_source_id == id
                &&& row.event_ids@ == encoded_or_empty(o.event_ids@)
                &&& row.raw_event_id is None
                &&& row.size matches Some(s) && s@ == decimal(o.event_ids@.len())
            },
        },
{
    match data_source_id {
        None => None,
        Some(id) => Some(OutlierRow {
            raw_event: o.outlier.clone(),
            data_source_id: id,
            event_ids: encode_or_empty(&o.event_ids),
            raw_event_id: None,
            size: Some(u64_to_string(o.event_ids.len() as u64)),
        }),
    }
}

/// The size text of a stored outlier after `new_size` more events: the
/// sum with the stored size when that is a number and the sum fits in a
/// `usize`; `new_size` alone otherwise.
pub open spec fn outlier_size_spec(current: Option<Seq<char>>, new_size: usize) -> Seq<char> {
    match current {
        Some(c) => match parse_usize_spec(c) {
            Some(n) => if new_size > usize::MAX - n { decimal(new_size as nat) } else { decimal((n + new_size) as nat) },
            None => decimal(new_size as nat),
        },
        None => decimal(new_size as nat),
    }
}

/// The size text of a stored outlier after `new_size` more events.
pub fn outlier_size(current: &Option<String>, new_size: usize) -> (r: String)
    ensures
        r@ == outlier_size_spec(match current { Some(c) => Some(c@), None => None }, new_size),
{
    match current {
        Some(c) => match parse_usize(c.as_str()) {
            Some(n) => if new_size > usize::MAX - n {
                u64_to_string(new_size as u64)
            } else {
                u64_to_string((n + new_size) as u64)
            },
            None => u64_to_string(new_size as u64),
        },
        None => u64_to_string(new_size as u64),
    }
}

/// The ids a stored outlier keeps after new ones: the stored ids (none
/// when they do not decode) followed by the new ones, cut down to the
/// largest `MAX_EXAMPLE_NUM` (sorted) when there are more, and encoded
/// (no bytes when encoding fails).
pub open spec fn merged_outlier_ids(stored: Option<Seq<u8>>, new: Seq<u64>, r: Seq<u8>) -> bool {
    exists|t: Seq<u64>| #[trigger] merged_examples(Some(stored_ids(stored)), Some(new), Some(t)) && r == encoded_or_empty(t)
}

/// The ids stored bytes hold: none when there are no bytes or they do not
/// decode.
pub open spec fn stored_ids(stored: Option<Seq<u8>>) -> Seq<u64> {
    match stored {
        Some(b) => match ids_of_msgpack(b) {
            Some(v) => v,
            None => Seq::empty(),
        },
        None => Seq::empty(),
    }
}

fn merge_outlier_ids(stored: Option<&Vec<u8>>, new: &Vec<u64>) -> (r: Vec<u8>)
    ensures
        merged_outlier_ids(match stored { Some(b) => Some(b@), None => None }, new@, r@),
{
    let current = match stored {
        Some(b) => match decode_ids(b.as_slice()) {
            Some(v) => v,
            None => Vec::new(),
        },
        None => Vec::new(),
    };
    let ghost cur = current@;
    assert(cur == stored_ids(match stored { Some(b) => Some(b@), None => None }));
    let mut new_ids: Vec<u64> = Vec::new();
    let mut i: usize = 0;
    while i < new.len()
        invariant
            i <= new@.len(),
            new_ids@ == new@.take(i as int),
        decreases new@.len() - i,
    {
        new_ids.push(new[i]);
        i = i + 1;
        assert(new_ids@ =~= new@.take(i as int));
    }
    assert(new_ids@ =~= new@);
    let merged = merge_cluster_examples(Some(current), Some(new_ids));
    match merged {
        Some(t) => {
            let r = encode_or_empty(&t);
            assert(merged_examples(Some(cur), Some(new@), Some(t@)));
            r
        },
        None => {
            assert(false);
            Vec::new()
        },
    }
}

/// The row written for a reported outlier, given the stored outlier with
/// the same raw event (if any) and the id of its data source: a stored
/// outlier keeps its raw event id, its size grows by the number of new
/// ids and its ids are merged with the new ones; a new outlier takes its
/// ids (the largest `MAX_EXAMPLE_NUM` when there are more) and their
/// number as size. None when the data source is unknown (id 0).
pub open spec fn outlier_row_ok(o: OutlierUpdate, found: Option<StoredOutlier>, data_source_id: i32, r: Option<OutlierRow>) -> bool {
    if data_source_id == 0 {
        r is None
    } else {
        r matches Some(row) && {
            &&& row.raw_event@ == o.outlier@
            &&& row.data_source_id == data_source_id
            &&& match found {
                Some(s) => {
                    &&& merged_outlier_ids(Some(s.event_ids@), o.event_ids@, row.event_ids@)
                    &&& row.raw_event_id == s.raw_event_id
                    &&& row.size matches Some(t) && t@ == outlier_size_spec(
                        match s.size { Some(c) => Some(c@), None => None },
                        o.event_ids@.len() as usize,
                    )
                },
                None => {
                    &&& merged_outlier_ids(None, o.event_ids@, row.event_ids@)
                    &&& row.raw_event_id is None
                    &&& row.size matches Some(t) && t@ == decimal(o.event_ids@.len())
                },
            }
        }
    }
}

/// The row written for a reported outlier.
pub fn updated_outlier_row(o: &OutlierUpdate, found: Option<&StoredOutlier>, data_source_id: i32) -> (r: Option<OutlierRow>)
    ensures
        outlier_row_ok(*o, match found { Some(s) => Some(*s), None => None }, data_source_id, r),
{
    if data_source_id == 0 {
        return None;
    }
    match found {
        Some(s) => {
            let size = outlier_size(&s.size, o.event_ids.len());
            let ids = merge_outlier_ids(Some(&s.event_ids), &o.event_ids);
            Some(OutlierRow {
                raw_event: o.outlier.clone(),
                data_source_id,
                event_ids: ids,
                raw_event_id: s.raw_event_id,
                size: Some(size),
            })
        },
        None => {
            let ids = merge_outlier_ids(None, &o.event_ids);
            Some(OutlierRow {
                raw_event: o.outlier.clone(),
                data_source_id,
                event_ids: ids,
                raw_event_id: None,
                size: Some(u64_to_string(o.event_ids.len() as u64)),
            })
        },
    }
}

/// Whether two byte strings are equal.
fn bytes_eq(a: &Vec<u8>, b: &Vec<u8>) -> (r: bool)
    ensures
        r == (a@ == b@),
{
    if a.len() != b.len() {
        return false;
    }
    let mut i: usize = 0;
    while i < a.len()
        invariant
            i <= a@.len(),
            a@.len() == b@.len(),
            a@.take(i as int) == b@.take(i as int),
        decreases a@.len() - i,
    {
        if a[i] != b[i] {
            assert(a@.take(i + 1)[i as int] != b@.take(i + 1)[i as int]);
            return false;
        }
        assert(a@.take(i + 1) =~= a@.take(i as int).push(a@[i as int]));
        assert(b@.take(i + 1) =~= b@.take(i as int).push(b@[i as int]));
        i = i + 1;
    }
    assert(a@ =~= a@.take(i as int));
    assert(b@ =~= b@.take(i as int));
    true
}

/// The position of the first stored outlier with raw event `raw`.
pub open spec fn first_outlier(stored: Seq<StoredOutlier>, raw: Seq<u8>, k: int) -> Option<int>
    decreases k,
{
    if k <= 0 {
        None
    } else {
        match first_outlier(stored, raw, k - 1) {
            Some(i) => Some(i),
            None => if stored[k - 1].raw_event@ == raw { Some(k - 1) } else { None },
        }
    }
}

proof fn lemma_first_outlier_stays(stored: Seq<StoredOutlier>, raw: Seq<u8>, a: int, b: int)
    requires
        0 <= a <= b,
        first_outlier(stored, raw, a) is Some,
    ensures
        first_outlier(stored, raw, b) == first_outlier(stored, raw, a),
    decreases b - a,
{
    if a < b {
        lemma_first_outlier_stays(stored, raw, a, b - 1);
    }
}

/// The position of the first stored outlier with this raw event.
pub fn find_outlier(stored: &Vec<StoredOutlier>, raw: &Vec<u8>) -> (r: Option<usize>)
    ensures
        match r {
            Some(i) => i < stored@.len() && first_outlier(stored@, raw@, stored@.len() as int) == Some(i as int),
            None => first_outlier(stored@, raw@, stored@.len() as int) is None,
        },
{
    let mut i: usize = 0;
    while i < stored.len()
        invariant
            i <= stored@.len(),
            first_outlier(stored@, raw@, i as int) is None,
        decreases stored@.len() - i,
    {
        if bytes_eq(&stored[i].raw_event, raw) {
            proof {
                assert(first_outlier(stored@, raw@, i + 1) == Some(i as int));
                lemma_first_outlier_stays(stored@, raw@, i + 1, stored@.len() as int);
            }
            return Some(i);
        }
        i = i + 1;
    }
    None
}

/// What a deleted outlier hands on: for each outlier named for deletion
/// whose first stored match has a raw event id and decodable ids, those
/// ids and that raw event id, in order.
pub open spec fn deleted_links_spec(requested: Seq<Seq<u8>>, stored: Seq<StoredOutlier>, k: int) -> Seq<(Seq<u64>, i32)>
    decreases k,
{
    if k <= 0 {
        Seq::empty()
    } else {
        let before = deleted_links_spec(requested, stored, k - 1);
        match first_outlier(stored, requested[k - 1], stored.len() as int) {
            Some(i) => match (stored[i].raw_event_id, ids_of_msgpack(stored[i].event_ids@)) {
                (Some(raw_id), Some(ids)) => before.push((ids, raw_id)),
                _ => before,
            },
            None => before,
        }
    }
}

/// What the outliers named for deletion (by their text) hand on to the
/// clusters: the event ids and raw event id of each that has both.
pub fn deleted_outlier_links(requested: &Vec<String>, stored: &Vec<StoredOutlier>) -> (r: Vec<(Vec<u64>, i32)>)
    ensures
        r@.map_values(|x: (Vec<u64>, i32)| (x.0@, x.1)) == deleted_links_spec(
            requested@.map_values(|s: String| encode_utf8(s@)),
            stored@,
            requested@.len() as int,
        ),
{
    let ghost req = requested@.map_values(|s: String| encode_utf8(s@));
    let mut r: Vec<(Vec<u64>, i32)> = Vec::new();
    let mut k: usize = 0;
    while k < requested.len()
        invariant
            k <= requested@.len(),
            req == requested@.map_values(|s: String| encode_utf8(s@)),
            r@.map_values(|x: (Vec<u64>, i32)| (x.0@, x.1)) == deleted_links_spec(req, stored@, k as int),
        decreases requested@.len() - k,
    {
        let raw = requested[k].as_str().as_bytes_vec();
        let ghost before = r@.map_values(|x: (Vec<u64>, i32)| (x.0@, x.1));
        match find_outlier(stored, &raw) {
            Some(i) => {
                let s = &stored[i];
                match s.raw_event_id {
                    Some(raw_id) => match decode_ids(s.event_ids.as_slice()) {
                        Some(ids) => {
                            r.push((ids, raw_id));
                            assert(r@.map_values(|x: (Vec<u64>, i32)| (x.0@, x.1)) =~= before.push((ids@, raw_id)));
                        },
                        None => {},
                    },
                    None => {},
                }
            },
            None => {},
        }
        k = k + 1;
    }
    r
}

/// The clusters as plain values: each id with its event ids.
pub open spec fn clusters_view(clusters: Seq<(i32, Vec<u64>)>) -> Seq<(i32, Seq<u64>)> {
    clusters.map_values(|c: (i32, Vec<u64>)| (c.0, c.1@))
}

/// The first of the first `k` clusters whose event ids hold `e`.
pub open spec fn cluster_with(cs: Seq<(i32, Seq<u64>)>, e: u64, k: int) -> Option<i32>
    decreases k,
{
    if k <= 0 {
        None
    } else {
        match cluster_with(cs, e, k - 1) {
            Some(c) => Some(c),
            None => if cs[k - 1].1.contains(e) { Some(cs[k - 1].0) } else { None },
        }
    }
}

/// The cluster that takes over a deleted outlier's raw event: for the
/// first of its first `k` ids that some cluster holds, the first cluster
/// that holds it.
pub open spec fn relink_target(cs: Seq<(i32, Seq<u64>)>, ids: Seq<u64>, k: int) -> Option<i32>
    decreases k,
{
    if k <= 0 {
        None
    } else {
        match relink_target(cs, ids, k - 1) {
            Some(c) => Some(c),
            None => cluster_with(cs, ids[k - 1], cs.len() as int),
        }
    }
}

/// For each of the first `k` deleted outliers that a cluster takes over,
/// that cluster and the outlier's raw event id, in order.
pub open spec fn relink_list(deleted: Seq<(Seq<u64>, i32)>, cs: Seq<(i32, Seq<u64>)>, k: int) -> Seq<(i32, i32)>
    decreases k,
{
    if k <= 0 {
        Seq::empty()
    } else {
        let before = relink_list(deleted, cs, k - 1);
        match relink_target(cs, deleted[k - 1].0, deleted[k - 1].0.len() as int) {
            Some(c) => before.push((c, deleted[k - 1].1)),
            None => before,
        }
    }
}

proof fn lemma_cluster_with_stays(cs: Seq<(i32, Seq<u64>)>, e: u64, a: int, b: int)
    requires
        0 <= a <= b,
        cluster_with(cs, e, a) is Some,
    ensures
        cluster_with(cs, e, b) == cluster_with(cs, e, a),
    decreases b - a,
{
    if a < b {
        lemma_cluster_with_stays(cs, e, a, b - 1);
    }
}

proof fn lemma_relink_target_stays(cs: Seq<(i32, Seq<u64>)>, ids: Seq<u64>, a: int, b: int)
    requires
        0 <= a <= b,
        relink_target(cs, ids, a) is Some,
    ensures
        relink_target(cs, ids, b) == relink_target(cs, ids, a),
    decreases b - a,
{
    if a < b {
        lemma_relink_target_stays(cs, ids, a, b - 1);
    }
}

/// Whether `e` is among the ids.
fn holds(ids: &Vec<u64>, e: u64) -> (r: bool)
    ensures
        r == ids@.contains(e),
{
    let mut i: usize = 0;
    while i < ids.len()
        invariant
            i <= ids@.len(),
            forall|j: int| 0 <= j < i ==> ids@[j] != e,
        decreases ids@.len() - i,
    {
        if ids[i] == e {
            assert(ids@[i as int] == e);
            return true;
        }
        i = i + 1;
    }
    false
}

/// The first cluster whose event ids hold `e`.
fn cluster_holding(clusters: &Vec<(i32, Vec<u64>)>, e: u64) -> (r: Option<i32>)
    ensures
        r == cluster_with(clusters_view(clusters@), e, clusters@.len() as int),
{
    let ghost cs = clusters_view(clusters@);
    let mut i: usize = 0;
    while i < clusters.len()
        invariant
            i <= clusters@.len(),
            cs == clusters_view(clusters@),
            cluster_with(cs, e, i as int) is None,
        decreases clusters@.len() - i,
    {
        if holds(&clusters[i].1, e) {
            proof {
                assert(cs[i as int] == (clusters@[i as int].0, clusters@[i as int].1@));
                assert(cluster_with(cs, e, i + 1) == Some(clusters@[i as int].0));
                lemma_cluster_with_stays(cs, e, i + 1, cs.len() as int);
            }
            return Some(clusters[i].0);
        }
        proof {
            assert(cs[i as int] == (clusters@[i as int].0, clusters@[i as int].1@));
        }
        i = i + 1;
    }
    None
}

/// The cluster that takes over the raw event of an outlier with these ids.
fn target_of(clusters: &Vec<(i32, Vec<u64>)>, ids: &Vec<u64>) -> (r: Option<i32>)
    ensures
        r == relink_target(clusters_view(clusters@), ids@, ids@.len() as int),
{
    let ghost cs = clusters_view(clusters@);
    let mut i: usize = 0;
    while i < ids.len()
        invariant
            i <= ids@.len(),
            cs == clusters_view(clusters@),
            relink_target(cs, ids@, i as int) is None,
        decreases ids@.len() - i,
    {
        match cluster_holding(clusters, ids[i]) {
            Some(c) => {
                proof {
                    assert(relink_target(cs, ids@, i + 1) == Some(c));
                    lemma_relink_target_stays(cs, ids@, i + 1, ids@.len() as int);
                }
                return Some(c);
            },
            None => {},
        }
        i = i + 1;
    }
    None
}

/// The clusters that take over the raw events of deleted outliers: for
/// each deleted outlier (its ids and raw event id) that some cluster
/// without a raw event shares an id with, that cluster and the raw event
/// id, in order; applied in order, a later outlier wins over an earlier
/// one for the same cluster.
pub fn clusters_to_relink(deleted: &Vec<(Vec<u64>, i32)>, clusters: &Vec<(i32, Vec<u64>)>) -> (r: Vec<(i32, i32)>)
    ensures
        r@ == relink_list(
            deleted@.map_values(|d: (Vec<u64>, i32)| (d.0@, d.1)),
            clusters_view(clusters@),
            deleted@.len() as int,
        ),
{
    let ghost ds = deleted@.map_values(|d: (Vec<u64>, i32)| (d.0@, d.1));
    let ghost cs = clusters_view(clusters@);
    let mut r: Vec<(i32, i32)> = Vec::new();
    let mut k: usize = 0;
    while k < deleted.len()
        invariant
            k <= deleted@.len(),
            ds == deleted@.map_values(|d: (Vec<u64>, i32)| (d.0@, d.1)),
            cs == clusters_view(clusters@),
            r@ == relink_list(ds, cs, k as int),
        decreases deleted@.len() - k,
    {
        proof {
            assert(ds[k as int] == (deleted@[k as int].0@, deleted@[k as int].1));
        }
        match target_of(clusters, &deleted[k].0) {
            Some(c) => {
                r.push((c, deleted[k].1));
            },
            None => {},
        }
        k = k + 1;
    }
    r
}


/// An outlier stores at most `MAX_EXAMPLE_NUM` event ids: the ids written
/// for it are the encoding of at most that many ids, the largest (most
/// recent) ones, in ascending order, when there were more.
pub proof fn law_outlier_keeps_recent_ids(stored: Option<Seq<u8>>, new: Seq<u64>, r: Seq<u8>)
    requires
        merged_outlier_ids(stored, new, r),
    ensures
        exists|t: Seq<u64>| #![trigger encoded_or_empty(t)] {
            &&& t.len() <= MAX_EXAMPLE_NUM
            &&& r == encoded_or_empty(t)
            &&& (stored_ids(stored) + new).len() > MAX_EXAMPLE_NUM ==> largest_sorted(stored_ids(stored) + new, t, MAX_EXAMPLE_NUM as nat)
        },
{
    let t = choose|t: Seq<u64>| #[trigger] merged_examples(Some(stored_ids(stored)), Some(new), Some(t)) && r == encoded_or_empty(t);
    crate::examples::law_merged_examples_bounded(Some(stored_ids(stored)), Some(new), Some(t));
}

/// The size of a stored outlier after new events adds their number to a
/// stored size that is a number, while the sum fits in a `usize`; past
/// that, or when there is no stored size or it is no number, the size is
/// the number of new events. Reading the new size back gives the sum.
pub proof fn law_outlier_size_adds(current: Option<Seq<char>>, c: usize, n: usize)
    ensures
        (current matches Some(t) && parse_usize_spec(t) == Some(c)) && c + n <= usize::MAX ==> {
            &&& outlier_size_spec(current, n) == decimal((c + n) as nat)
            &&& parse_usize_spec(outlier_size_spec(current, n)) == Some((c + n) as usize)
        },
        (current matches Some(t) && parse_usize_spec(t) == Some(c)) && c + n > usize::MAX ==> outlier_size_spec(current, n) == decimal(n as nat),
        (current matches Some(t) && parse_usize_spec(t) is None) ==> outlier_size_spec(current, n) == decimal(n as nat),
        current is None ==> outlier_size_spec(current, n) == decimal(n as nat),
{
    if c + n <= usize::MAX {
        crate::text::law_u64_text_round_trip((c + n) as u64);
    }
}

} // verus!
