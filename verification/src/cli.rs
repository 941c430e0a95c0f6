//! The terminal client that works on local files: the clusters built
//! from a clustering result and a raw event database, the events it keeps
//! when old ones are deleted, and the events read from REviewd for review.

use vstd::prelude::*;
use vstd::multiset::Multiset;
use vstd::utf8::{decode_utf8, valid_utf8};
use std::collections::HashMap;
use crate::cluster::{pretty_id_list, pretty_ids, pretty_text_list, pretty_texts};
use crate::examples::{ascending, largest_sorted, merge_cluster_examples, merged_examples, sort_ids, MAX_EXAMPLE_NUM};
use crate::text::{decimal, spec_to_lowercase, str_eq, to_lowercase, u64_to_string};
use crate::views::{qualifier_name, qualifier_name_spec};

verus! {

broadcast use vstd::std_specs::hash::group_hash_axioms;

/// The most event ids a cluster shows.
pub const SHOWN_EVENT_IDS: usize = 10;

/// The most examples a cluster shows.
pub const SHOWN_EXAMPLES: usize = 3;

/// The most bytes of an example shown.
pub const MAX_EXAMPLE_BYTES: usize = 500;

/// The text that stands for an example that could not be read.
pub const UNDECODABLE: &'static str = "<undecodable>";

/// Calls `std::str::from_utf8` and copies the text: the text of the bytes
/// when they are valid UTF-8, nothing otherwise.
#[verifier::external_body]
fn utf8_text(bytes: &[u8]) -> (r: Option<String>)
    ensures
        match r {
            Some(s) => valid_utf8(bytes@) && s@ == decode_utf8(bytes@),
            None => !valid_utf8(bytes@),
        },
{
    match std::str::from_utf8(bytes) {
        Ok(s) => Some(s.to_string()),
        Err(_) => None,
    }
}

/// A cluster as the client shows it.
pub struct Cluster {
    pub cluster_id: usize,
    pub signature: String,
    pub size: usize,
    pub suspicious: String,
    pub examples: Vec<String>,
    pub event_ids: Vec<u64>,
}

/// The signature text of a cluster: its bytes as UTF-8, or empty when it
/// has none or they are not UTF-8.
pub fn signature_text(sig: Option<&[u8]>) -> (r: String)
    ensures
        r@ == match sig {
            Some(b) => if valid_utf8(b@) { decode_utf8(b@) } else { Seq::empty() },
            None => Seq::empty(),
        },
{
    match sig {
        Some(b) => match utf8_text(b) {
            Some(s) => s,
            None => String::new(),
        },
        None => String::new(),
    }
}

/// The text an example shows for a raw event: none when it is not UTF-8,
/// else its first `MAX_EXAMPLE_BYTES` bytes when it is longer.
pub open spec fn example_text_spec(bytes: Seq<u8>) -> Option<Seq<char>> {
    if !valid_utf8(bytes) {
        None
    } else if bytes.len() > MAX_EXAMPLE_BYTES {
        Some(decode_utf8(bytes.take(MAX_EXAMPLE_BYTES as int)))
    } else {
        Some(decode_utf8(bytes))
    }
}

/// The text an example shows for a raw event.
pub fn example_text(bytes: &[u8]) -> (r: Option<String>)
    requires
        valid_utf8(bytes@) && bytes@.len() > MAX_EXAMPLE_BYTES ==> valid_utf8(bytes@.take(MAX_EXAMPLE_BYTES as int)),
    ensures
        match r {
            Some(s) => example_text_spec(bytes@) == Some(s@),
            None => example_text_spec(bytes@) is None,
        },
{
    match utf8_text(bytes) {
        None => None,
        Some(s) => if bytes.len() > MAX_EXAMPLE_BYTES {
            let mut head: Vec<u8> = Vec::new();
            let mut i: usize = 0;
            while i < MAX_EXAMPLE_BYTES
                invariant
                    i <= MAX_EXAMPLE_BYTES,
                    MAX_EXAMPLE_BYTES < bytes@.len(),
                    head@ == bytes@.take(i as int),
                decreases MAX_EXAMPLE_BYTES - i,
            {
                head.push(bytes[i]);
                i = i + 1;
                assert(head@ =~= bytes@.take(i as int));
            }
            utf8_text(head.as_slice())
        } else {
            Some(s)
        },
    }
}

/// The examples a cluster shows, from those read: when fewer than
/// `SHOWN_EXAMPLES` were read, `UNDECODABLE` is added until there are as
/// many as events or `SHOWN_EXAMPLES`, whichever comes first as the list
/// grows; when more than `SHOWN_EXAMPLES` were read, the first ones only.
pub open spec fn shown_examples_spec(read: Seq<Seq<char>>, size: nat) -> Seq<Seq<char>> {
    if read.len() < SHOWN_EXAMPLES {
        let target = if read.len() <= size && size < SHOWN_EXAMPLES { size } else { SHOWN_EXAMPLES as nat };
        read + Seq::new((target - read.len()) as nat, |i: int| "<undecodable>"@)
    } else if read.len() > SHOWN_EXAMPLES {
        read.take(SHOWN_EXAMPLES as int)
    } else {
        read
    }
}

/// The texts of a list of strings.
pub open spec fn texts(v: Seq<String>) -> Seq<Seq<char>> {
    v.map_values(|s: String| s@)
}

/// The examples a cluster of `size` events shows, from those read.
pub fn shown_examples(read: Vec<String>, size: usize) -> (r: Vec<String>)
    ensures
        texts(r@) == shown_examples_spec(texts(read@), size as nat),
{
    let mut examples = read;
    let ghost orig = texts(examples@);
    if examples.len() < SHOWN_EXAMPLES {
        let n0 = examples.len();
        while !(examples.len() == size || examples.len() == SHOWN_EXAMPLES)
            invariant
                n0 < SHOWN_EXAMPLES,
                n0 <= examples@.len() <= SHOWN_EXAMPLES,
                n0 <= size ==> examples@.len() <= size,
                texts(examples@) == orig + Seq::new((examples@.len() - n0) as nat, |i: int| "<undecodable>"@),
                orig.len() == n0,
            decreases SHOWN_EXAMPLES - examples@.len(),
        {
            let ghost before = texts(examples@);
            let u = UNDECODABLE.to_string();
            examples.push(u);
            assert(texts(examples@) =~= before.push(u@));
            assert(texts(examples@) =~= orig + Seq::new((examples@.len() - n0) as nat, |i: int| "<undecodable>"@));
        }
        examples
    } else if examples.len() > SHOWN_EXAMPLES {
        let mut r: Vec<String> = Vec::new();
        let mut i: usize = 0;
        while i < SHOWN_EXAMPLES
            invariant
                i <= SHOWN_EXAMPLES,
                SHOWN_EXAMPLES < examples@.len(),
                orig == texts(examples@),
                texts(r@) == orig.take(i as int),
            decreases SHOWN_EXAMPLES - i,
        {
            let ghost before = texts(r@);
            let e = examples[i].clone();
            assert(e@ == orig[i as int]);
            r.push(e);
            assert(texts(r@) =~= before.push(e@));
            i = i + 1;
            assert(texts(r@) =~= orig.take(i as int));
        }
        r
    } else {
        examples
    }
}

/// The first `SHOWN_EVENT_IDS` event ids of a cluster, as its events are
/// listed.
pub fn shown_event_ids(events: &Vec<u64>) -> (r: Vec<u64>)
    ensures
        r@ == if events@.len() > SHOWN_EVENT_IDS { events@.take(SHOWN_EVENT_IDS as int) } else { events@ },
{
    let n = if events.len() > SHOWN_EVENT_IDS { SHOWN_EVENT_IDS } else { events.len() };
    let mut r: Vec<u64> = Vec::new();
    let mut i: usize = 0;
    while i < n
        invariant
            i <= n,
            n <= events@.len(),
            r@ == events@.take(i as int),
        decreases n - i,
    {
        r.push(events[i]);
        i = i + 1;
        assert(r@ =~= events@.take(i as int));
    }
    assert(n == events@.len() ==> events@.take(n as int) =~= events@);
    r
}

impl Cluster {
    /// A cluster of a clustering result: its signature, its events (as
    /// listed), and the examples read for its first event ids. It starts
    /// with the qualifier `unknown`.
    pub fn new(cluster_id: usize, signature: String, events: &Vec<u64>, read_examples: Vec<String>) -> (r: Cluster)
        ensures
            r.cluster_id == cluster_id,
            r.signature == signature,
            r.size == events@.len(),
            r.suspicious@ == "unknown"@,
            texts(r.examples@) == shown_examples_spec(texts(read_examples@), events@.len()),
            r.event_ids@ == if events@.len() > SHOWN_EVENT_IDS { events@.take(SHOWN_EVENT_IDS as int) } else { events@ },
    {
        Cluster {
            cluster_id,
            signature,
            size: events.len(),
            suspicious: String::from_str("unknown"),
            examples: shown_examples(read_examples, events.len()),
            event_ids: shown_event_ids(events),
        }
    }

    /// The text written to the benign rules file: the signature of every
    /// cluster qualified as benign, each followed by a newline.
    pub fn benign_rules(clusters: &Vec<Cluster>) -> (r: String)
        ensures
            r@ == benign_rules_spec(clusters@, clusters@.len() as int),
    {
        let mut buff = String::new();
        let mut i: usize = 0;
        while i < clusters.len()
            invariant
                i <= clusters@.len(),
                buff@ == benign_rules_spec(clusters@, i as int),
            decreases clusters@.len() - i,
        {
            if str_eq(clusters[i].suspicious.as_str(), "Benign") {
                buff.append(clusters[i].signature.as_str());
                buff.append("\n");
            }
            i = i + 1;
        }
        buff
    }

    /// Gives the cluster the qualifier a choice stands for.
    pub fn save_qualifier(&mut self, code: i64)
        ensures
            final(self).suspicious@ == qualifier_name_spec(code),
            final(self).cluster_id == old(self).cluster_id,
            final(self).signature == old(self).signature,
            final(self).size == old(self).size,
            final(self).examples == old(self).examples,
            final(self).event_ids == old(self).event_ids,
    {
        let q = qualifier_name(code);
        if !str_eq(self.suspicious.as_str(), q) {
            self.suspicious = q.to_string();
        }
    }

    /// The properties text of a cluster.
    pub fn get_cluster_properties(cluster: &Cluster) -> (r: String)
        ensures
            r@ == "cluster id: "@ + decimal(cluster.cluster_id as nat) + "\nsignature: "@ + cluster.signature@
                + "\nqualifier: "@ + cluster.suspicious@ + "\nsize: "@ + decimal(cluster.size as nat) + "\nexamples: "@
                + pretty_texts(texts(cluster.examples@)) + "\nevent IDs: "@ + pretty_ids(cluster.event_ids@) + "\n\n"@,
    {
        let mut r = String::from_str("cluster id: ");
        r.append(u64_to_string(cluster.cluster_id as u64).as_str());
        r.append("\nsignature: ");
        r.append(cluster.signature.as_str());
        r.append("\nqualifier: ");
        r.append(cluster.suspicious.as_str());
        r.append("\nsize: ");
        r.append(u64_to_string(cluster.size as u64).as_str());
        r.append("\nexamples: ");
        let e = pretty_text_list(&cluster.examples);
        assert(e@ == pretty_texts(texts(cluster.examples@)));
        r.append(e.as_str());
        r.append("\nevent IDs: ");
        r.append(pretty_id_list(&cluster.event_ids).as_str());
        r.append("\n\n");
        r
    }
}

/// The signatures of the clusters marked benign, one per line.
pub open spec fn benign_rules_spec(clusters: Seq<Cluster>, k: int) -> Seq<char>
    decreases k,
{
    if k <= 0 {
        Seq::empty()
    } else {
        benign_rules_spec(clusters, k - 1) + if clusters[k - 1].suspicious@ == "Benign"@ {
            clusters[k - 1].signature@ + "\n"@
        } else {
            Seq::empty()
        }
    }
}

/// The benign rule line of a cluster: its signature and a newline when it
/// is qualified as benign, else nothing.
pub open spec fn rule_line(c: Cluster) -> Seq<char> {
    if c.suspicious@ == "Benign"@ { c.signature@ + "\n"@ } else { Seq::empty() }
}

/// The benign rule lines of the clusters at positions `lo..k`.
pub open spec fn rules_between(clusters: Seq<Cluster>, lo: int, k: int) -> Seq<char>
    decreases k - lo,
{
    if k <= lo {
        Seq::empty()
    } else {
        rules_between(clusters, lo, k - 1) + rule_line(clusters[k - 1])
    }
}

/// The list after cluster `i` was given the qualifier a choice stands for:
/// that cluster takes the qualifier's name, with its other fields kept;
/// every other cluster is unchanged.
pub open spec fn qualifier_saved(old_list: Seq<Cluster>, new_list: Seq<Cluster>, i: int, code: i64) -> bool {
    &&& new_list.len() == old_list.len()
    &&& 0 <= i < old_list.len()
    &&& new_list[i].suspicious@ == qualifier_name_spec(code)
    &&& new_list[i].cluster_id == old_list[i].cluster_id
    &&& new_list[i].signature == old_list[i].signature
    &&& new_list[i].size == old_list[i].size
    &&& new_list[i].examples == old_list[i].examples
    &&& new_list[i].event_ids == old_list[i].event_ids
    &&& forall|j: int| 0 <= j < old_list.len() && j != i ==> #[trigger] new_list[j] == old_list[j]
}

/// Gives cluster `i` of the list the qualifier a choice stands for.
pub fn save_cluster_qualifier(clusters: &mut Vec<Cluster>, i: usize, code: i64)
    requires
        i < old(clusters)@.len(),
    ensures
        qualifier_saved(old(clusters)@, final(clusters)@, i as int, code),
{
    clusters[i].save_qualifier(code);
}

proof fn lemma_rules_split(clusters: Seq<Cluster>, lo: int, k: int)
    requires
        0 <= lo <= k <= clusters.len(),
    ensures
        benign_rules_spec(clusters, k) == benign_rules_spec(clusters, lo) + rules_between(clusters, lo, k),
    decreases k - lo,
{
    if k > lo {
        lemma_rules_split(clusters, lo, k - 1);
        assert(benign_rules_spec(clusters, k) =~= benign_rules_spec(clusters, lo) + rules_between(clusters, lo, k - 1)
            + rule_line(clusters[k - 1]));
    } else {
        assert(benign_rules_spec(clusters, lo) + rules_between(clusters, lo, k) =~= benign_rules_spec(clusters, lo));
    }
}

proof fn lemma_rules_between_same(a: Seq<Cluster>, b: Seq<Cluster>, lo: int, k: int)
    requires
        0 <= lo <= k <= a.len(),
        a.len() == b.len(),
        forall|j: int| lo <= j < k ==> #[trigger] a[j] == b[j],
    ensures
        rules_between(a, lo, k) == rules_between(b, lo, k),
    decreases k - lo,
{
    if k > lo {
        lemma_rules_between_same(a, b, lo, k - 1);
        assert(a[k - 1] == b[k - 1]);
    }
}

proof fn lemma_rules_prefix_same(a: Seq<Cluster>, b: Seq<Cluster>, k: int)
    requires
        0 <= k <= a.len(),
        a.len() == b.len(),
        forall|j: int| 0 <= j < k ==> #[trigger] a[j] == b[j],
    ensures
        benign_rules_spec(a, k) == benign_rules_spec(b, k),
    decreases k,
{
    if k > 0 {
        lemma_rules_prefix_same(a, b, k - 1);
        assert(a[k - 1] == b[k - 1]);
    }
}

/// Giving one cluster a qualifier and then writing the benign rules: the
/// rules are those of the clusters before it, then its signature exactly
/// when the choice was benign, then those of the clusters after it, all
/// in list order.
pub proof fn law_feedback_rules(old_list: Seq<Cluster>, new_list: Seq<Cluster>, i: int, code: i64)
    requires
        qualifier_saved(old_list, new_list, i, code),
    ensures
        benign_rules_spec(new_list, new_list.len() as int) == benign_rules_spec(old_list, i)
            + (if code == 2 { old_list[i].signature@ + "\n"@ } else { Seq::empty() })
            + rules_between(old_list, i + 1, old_list.len() as int),
{
    let n = old_list.len() as int;
    reveal_strlit("Benign");
    reveal_strlit("Suspicious");
    reveal_strlit("None");
    lemma_rules_split(new_list, i + 1, n);
    lemma_rules_prefix_same(old_list, new_list, i);
    assert forall|j: int| i + 1 <= j < n implies #[trigger] old_list[j] == new_list[j] by {}
    lemma_rules_between_same(old_list, new_list, i + 1, n);
    assert(benign_rules_spec(new_list, i + 1) == benign_rules_spec(new_list, i) + rule_line(new_list[i]));
    if code == 2 {
        assert(rule_line(new_list[i]) == old_list[i].signature@ + "\n"@);
    } else {
        if code == 1 {
            assert("Suspicious"@.len() != "Benign"@.len());
        } else {
            assert("None"@.len() != "Benign"@.len());
        }
        assert(qualifier_name_spec(code) != "Benign"@);
        assert(rule_line(new_list[i]) == Seq::<char>::empty());
        assert(benign_rules_spec(old_list, i) + Seq::<char>::empty() =~= benign_rules_spec(old_list, i));
    }
}

/// `order` lists the positions of `sizes` from the largest size down,
/// positions of equal sizes in their order: what a stable sort by size,
/// largest first, makes of the list.
pub open spec fn size_ordered(sizes: Seq<usize>, order: Seq<usize>) -> bool {
    &&& order.len() == sizes.len()
    &&& forall|k: int| 0 <= k < order.len() ==> #[trigger] order[k] < sizes.len()
    &&& forall|a: int, b: int| 0 <= a < b < order.len() ==> order[a] != order[b]
    &&& forall|a: int, b: int| 0 <= a < b < order.len() ==> #[trigger] sizes[order[a] as int] > #[trigger] sizes[order[b] as int]
        || (sizes[order[a] as int] == sizes[order[b] as int] && order[a] < order[b])
}

/// The order in which clusters of these sizes are listed: largest first,
/// equal sizes in the order given.
pub fn size_order(sizes: &Vec<usize>) -> (r: Vec<usize>)
    ensures
        size_ordered(sizes@, r@),
{
    let mut r: Vec<usize> = Vec::new();
    let mut i: usize = 0;
    while i < sizes.len()
        invariant
            i <= sizes@.len(),
            r@.len() == i,
            forall|k: int| 0 <= k < r@.len() ==> #[trigger] r@[k] < i,
            forall|a: int, b: int| 0 <= a < b < r@.len() ==> r@[a] != r@[b],
            forall|a: int, b: int| 0 <= a < b < r@.len() ==> #[trigger] sizes@[r@[a] as int] > #[trigger] sizes@[r@[b] as int]
                || (sizes@[r@[a] as int] == sizes@[r@[b] as int] && r@[a] < r@[b]),
        decreases sizes@.len() - i,
    {
        // Insert position i after every listed position of a size at
        // least as large.
        let mut j: usize = r.len();
        while j > 0 && sizes[r[j - 1]] < sizes[i]
            invariant
                j <= r@.len(),
                i < sizes@.len(),
                forall|k: int| 0 <= k < r@.len() ==> #[trigger] r@[k] < i,
                forall|k: int| j <= k < r@.len() ==> sizes@[r@[k] as int] < sizes@[i as int],
            decreases j,
        {
            j = j - 1;
        }
        let ghost old_r = r@;
        r.insert(j, i);
        proof {
            assert(r@ == old_r.insert(j as int, i));
            assert forall|k: int| 0 <= k < r@.len() implies #[trigger] r@[k] < i + 1 by {
                if k < j { assert(r@[k] == old_r[k]); } else if k > j { assert(r@[k] == old_r[k - 1]); }
            }
            assert forall|a: int, b: int| 0 <= a < b < r@.len() implies r@[a] != r@[b] by {
                if a < j && b < j {
                } else if a < j && b == j {
                    assert(old_r[a] < i);
                } else if a < j && b > j {
                    assert(r@[b] == old_r[b - 1]);
                } else if a == j {
                    assert(r@[b] == old_r[b - 1]);
                    assert(old_r[b - 1] < i);
                } else {
                    assert(r@[a] == old_r[a - 1]);
                    assert(r@[b] == old_r[b - 1]);
                }
            }
            assert forall|a: int, b: int| 0 <= a < b < r@.len() implies #[trigger] sizes@[r@[a] as int] > #[trigger] sizes@[r@[b] as int]
                || (sizes@[r@[a] as int] == sizes@[r@[b] as int] && r@[a] < r@[b]) by {
                if b < j {
                } else if b == j {
                    assert(r@[a] == old_r[a]);
                    assert(old_r[a] < i);
                    if j > 0 && a < j {
                        assert(sizes@[old_r[j - 1] as int] >= sizes@[i as int]);
                        if a < j - 1 {
                            assert(sizes@[old_r[a] as int] > sizes@[old_r[j - 1] as int]
                                || sizes@[old_r[a] as int] == sizes@[old_r[j - 1] as int]);
                        }
                    }
                } else if a == j {
                    assert(r@[b] == old_r[b - 1]);
                } else if a < j {
                    assert(r@[a] == old_r[a]);
                    assert(r@[b] == old_r[b - 1]);
                } else {
                    assert(r@[a] == old_r[a - 1]);
                    assert(r@[b] == old_r[b - 1]);
                }
            }
        }
        i = i + 1;
    }
    r
}

/// The events a cluster keeps when old ones are deleted: all of them when
/// there are at most `MAX_EXAMPLE_NUM`, else the largest (most recent)
/// `MAX_EXAMPLE_NUM`, in ascending order.
pub open spec fn kept_events_spec(events: Seq<u64>, r: Seq<u64>) -> bool {
    if events.len() > MAX_EXAMPLE_NUM {
        largest_sorted(events, r, MAX_EXAMPLE_NUM as nat)
    } else {
        r == events
    }
}

/// The events a cluster keeps when old ones are deleted.
pub fn kept_events(events: &Vec<u64>) -> (r: Vec<u64>)
    ensures
        kept_events_spec(events@, r@),
{
    let copy = shown_prefix(events, events.len());
    assert(events@.take(events@.len() as int) =~= events@);
    assert(Seq::<u64>::empty() + events@ =~= events@);
    match merge_cluster_examples(None, Some(copy)) {
        Some(r) => r,
        None => {
            assert(false);
            Vec::new()
        },
    }
}

/// The first `n` events.
fn shown_prefix(events: &Vec<u64>, n: usize) -> (r: Vec<u64>)
    requires
        n <= events@.len(),
    ensures
        r@ == events@.take(n as int),
{
    let mut r: Vec<u64> = Vec::new();
    let mut i: usize = 0;
    while i < n
        invariant
            i <= n,
            n <= events@.len(),
            r@ == events@.take(i as int),
        decreases n - i,
    {
        r.push(events[i]);
        i = i + 1;
        assert(r@ =~= events@.take(i as int));
    }
    r
}

/// Every event id the raw event database keeps when old events are
/// deleted: those each cluster keeps, together, in ascending order.
pub fn events_to_keep(kept: &Vec<Vec<u64>>) -> (r: Vec<u64>)
    ensures
        ascending(r@),
        r@.to_multiset() == kept@.map_values(|v: Vec<u64>| v@).flatten().to_multiset(),
{
    let ghost all = kept@.map_values(|v: Vec<u64>| v@);
    let mut flat: Vec<u64> = Vec::new();
    let mut i: usize = 0;
    while i < kept.len()
        invariant
            i <= kept@.len(),
            all == kept@.map_values(|v: Vec<u64>| v@),
            flat@ == all.take(i as int).flatten(),
        decreases kept@.len() - i,
    {
        let mut part = shown_prefix(&kept[i], kept[i].len());
        proof {
            all.take(i as int).lemma_flatten_push(all[i as int]);
            assert(all.take(i + 1) =~= all.take(i as int).push(all[i as int]));
            assert(kept[i as int]@.take(kept[i as int]@.len() as int) =~= kept[i as int]@);
        }
        flat.append(&mut part);
        i = i + 1;
    }
    assert(all.take(i as int) =~= all);
    sort_ids(&flat)
}

/// An event read from REviewd for review.
pub struct Event {
    pub event_id: u32,
    pub description: Option<String>,
    pub cluster_id: Option<String>,
    pub rules: Option<String>,
    pub category_id: u32,
    pub detector_id: u32,
    pub examples: Option<String>,
    pub priority_id: u32,
    pub qualifier_id: u32,
    pub status_id: u32,
    pub signature: String,
}

/// An optional text, or `-` when absent.
pub open spec fn or_dash(v: Option<String>) -> Seq<char> {
    match v {
        Some(s) => s@,
        None => "-"@,
    }
}

fn append_or_dash(r: &mut String, v: &Option<String>)
    ensures
        final(r)@ == old(r)@ + or_dash(*v),
{
    match v {
        Some(s) => r.append(s.as_str()),
        None => r.append("-"),
    }
}

fn table_name(table: &HashMap<u32, String>, id: u32) -> (r: &String)
    requires
        table@.contains_key(id),
    ensures
        *r == table@[id],
{
    match table.get(&id) {
        Some(v) => v,
        None => {
            assert(false);
            table.get(&id).unwrap()
        },
    }
}

/// The properties text of an event, with the names of its priority,
/// qualifier and category.
pub open spec fn event_properties_spec(e: Event, priority: Seq<char>, qualifier: Seq<char>, category: Seq<char>) -> Seq<char> {
    "event_id: "@ + decimal(e.event_id as nat) + "\ncluster_id: "@ + or_dash(e.cluster_id) + "\nrules: "@
        + or_dash(e.rules) + "\ndescription: "@ + or_dash(e.description) + "\ncategory_id: "@ + category
        + "\ndetector_id: "@ + decimal(e.detector_id as nat) + "\nexamples: "@ + or_dash(e.examples)
        + "\npriority_id: "@ + priority + "\nqualifier_id: "@ + qualifier + "\nsignature: "@ + e.signature@
        + "\n\n"@
}

impl Event {
    /// The properties text of the event; its priority, qualifier and
    /// category are named by the tables.
    pub fn get_event_properties(
        &self,
        priority: &HashMap<u32, String>,
        qualifier: &HashMap<u32, String>,
        category: &HashMap<u32, String>,
    ) -> (r: String)
        requires
            priority@.contains_key(self.priority_id),
            qualifier@.contains_key(self.qualifier_id),
            category@.contains_key(self.category_id),
        ensures
            r@ == event_properties_spec(
                *self,
                priority@[self.priority_id]@,
                qualifier@[self.qualifier_id]@,
                category@[self.category_id]@,
            ),
    {
        let mut r = String::from_str("event_id: ");
        r.append(u64_to_string(self.event_id as u64).as_str());
        r.append("\ncluster_id: ");
        append_or_dash(&mut r, &self.cluster_id);
        r.append("\nrules: ");
        append_or_dash(&mut r, &self.rules);
        r.append("\ndescription: ");
        append_or_dash(&mut r, &self.description);
        r.append("\ncategory_id: ");
        r.append(table_name(category, self.category_id).as_str());
        r.append("\ndetector_id: ");
        r.append(u64_to_string(self.detector_id as u64).as_str());
        r.append("\nexamples: ");
        append_or_dash(&mut r, &self.examples);
        r.append("\npriority_id: ");
        r.append(table_name(priority, self.priority_id).as_str());
        r.append("\nqualifier_id: ");
        r.append(table_name(qualifier, self.qualifier_id).as_str());
        r.append("\nsignature: ");
        r.append(self.signature.as_str());
        r.append("\n\n");
        r
    }

    /// Gives the event a qualifier; a different one is recorded as the
    /// event's pending update.
    pub fn save_qualifier(&mut self, qualifier_id: u32, updated: &mut HashMap<u32, u32>)
        ensures
            *final(self) == (Event { qualifier_id, ..*old(self) }),
            final(updated)@ == if old(self).qualifier_id != qualifier_id {
                old(updated)@.insert(old(self).event_id, qualifier_id)
            } else {
                old(updated)@
            },
    {
        if self.qualifier_id != qualifier_id {
            self.qualifier_id = qualifier_id;
            updated.insert(self.event_id, qualifier_id);
        }
    }

    /// The label text of the event in the list: its rules, or `-`.
    pub fn list_name(&self) -> (r: String)
        ensures
            r@ == or_dash(self.rules),
    {
        let mut r = String::new();
        append_or_dash(&mut r, &self.rules);
        r
    }
}

/// The address of a REviewd API path under a base address given with or
/// without trailing slashes.
pub fn api_address(base: &str, path: &str) -> (r: String)
    ensures
        r@ == crate::views::trimmed_url(base@) + path@,
{
    let mut r = crate::views::trim_trailing_slashes(base);
    r.append(path);
    r
}

/// Whether a status is the one events wait in for review: its name in
/// lower case is `review`.
pub open spec fn is_review_status(name: Seq<char>) -> bool {
    spec_to_lowercase(name) == "review"@
}

/// The id of the first status, in the order given, whose name in lower
/// case is `review`; none when there is no such status.
pub fn review_status_id(statuses: &Vec<(u32, String)>) -> (r: Option<u32>)
    ensures
        match r {
            Some(id) => exists|i: int|
                0 <= i < statuses.len() && #[trigger] statuses[i].0 == id && is_review_status(statuses[i].1@)
                    && forall|j: int| 0 <= j < i ==> !is_review_status(#[trigger] statuses[j].1@),
            None => forall|i: int| 0 <= i < statuses.len() ==> !is_review_status(#[trigger] statuses[i].1@),
        },
{
    let mut i: usize = 0;
    while i < statuses.len()
        invariant
            i <= statuses.len(),
            forall|j: int| 0 <= j < i ==> !is_review_status(#[trigger] statuses[j].1@),
        decreases statuses.len() - i,
    {
        let lower = to_lowercase(statuses[i].1.as_str());
        if str_eq(lower.as_str(), "review") {
            return Some(statuses[i].0);
        }
        i = i + 1;
    }
    None
}

/// What the event review says when no event waits for review.
pub open spec fn no_review_events_message() -> Seq<char> {
    "Event with review status was not found."@
}

/// The events to review, as listed by the server: refused, with the
/// message that says so, when there are none; else all of them, in order.
pub fn review_events(events: Vec<Event>) -> (r: Result<Vec<Event>, String>)
    ensures
        r is Err <==> events@.len() == 0,
        r matches Ok(v) ==> v@ == events@,
        r matches Err(m) ==> m@ == no_review_events_message(),
{
    if events.len() == 0 {
        Err(String::from_str("Event with review status was not found."))
    } else {
        Ok(events)
    }
}

/// The address that lists the events with a status; `prefix` is the path
/// the event API lies under (`/api`, or empty for the older server).
pub fn events_by_status_address(base: &str, prefix: &str, status_id: u32) -> (r: String)
    ensures
        r@ == crate::views::trimmed_url(base@) + prefix@ + "/event?status_id="@ + decimal(status_id as nat),
{
    let mut r = crate::views::trim_trailing_slashes(base);
    r.append(prefix);
    r.append("/event?status_id=");
    r.append(u64_to_string(status_id as u64).as_str());
    r
}

/// The address that gives an event a new qualifier; `prefix` as above.
pub fn event_update_address(base: &str, prefix: &str, event_id: u32, qualifier_id: u32) -> (r: String)
    ensures
        r@ == crate::views::trimmed_url(base@) + prefix@ + "/event?event_id="@ + decimal(event_id as nat) + "&qualifier_id="@
            + decimal(qualifier_id as nat),
{
    let mut r = crate::views::trim_trailing_slashes(base);
    r.append(prefix);
    r.append("/event?event_id=");
    r.append(u64_to_string(event_id as u64).as_str());
    r.append("&qualifier_id=");
    r.append(u64_to_string(qualifier_id as u64).as_str());
    r
}

/// The text `format!("{:?}", v)` gives for a list of ids.
pub uninterp spec fn debug_ids(v: Seq<u32>) -> Seq<char>;

/// Calls `format!("{:?}", v)` on a list of ids; the result is named
/// `debug_ids` of them.
#[verifier::external_body]
fn debug_id_list(v: &Vec<u32>) -> (r: String)
    ensures
        r@ == debug_ids(v@),
{
    format!("{:?}", v)
}

/// The message after the pending updates were sent: success when no
/// request failed; else the events the server refused, or, when none was
/// refused, those whose request could not be sent.
pub open spec fn update_report_spec(refused: Seq<u32>, unsent: Seq<u32>) -> Seq<char> {
    if refused.len() == 0 && unsent.len() == 0 {
        "Your changes have been successfully saved."@
    } else if refused.len() > 0 {
        "Failed to update the following event_id:\n\n"@ + debug_ids(refused)
    } else {
        "Failed to send update requests of the following event_id to backend server:\n\n"@ + debug_ids(unsent)
    }
}

/// The message after the pending updates were sent.
pub fn update_report(refused: &Vec<u32>, unsent: &Vec<u32>) -> (r: String)
    ensures
        r@ == update_report_spec(refused@, unsent@),
{
    if refused.len() == 0 && unsent.len() == 0 {
        String::from_str("Your changes have been successfully saved.")
    } else if refused.len() > 0 {
        let mut r = String::from_str("Failed to update the following event_id:\n\n");
        r.append(debug_id_list(refused).as_str());
        r
    } else {
        let mut r = String::from_str("Failed to send update requests of the following event_id to backend server:\n\n");
        r.append(debug_id_list(unsent).as_str());
        r
    }
}

} // verus!
