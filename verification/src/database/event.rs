//! Events: the messages whose raw text the service keeps, identified by
//! their message id within a data source.

use vstd::prelude::*;

verus! {

/// A message of a data source, with its raw text once it has been fetched.
/// Events are ordered, and are the same, by message id alone.
pub struct Event {
    pub message_id: u64,
    pub data_source_id: i32,
    pub raw_event: Option<Vec<u8>>,
}

/// The events of `ids`, in order, for one data source and without raw text.
pub open spec fn events_of(ids: Seq<u64>, data_source_id: i32) -> Seq<Event> {
    ids.map_values(|id: u64| Event { message_id: id, data_source_id, raw_event: None })
}

/// Message ids strictly increase along `s`.
pub open spec fn strictly_increasing(s: Seq<Event>) -> bool {
    forall|a: int, b: int| 0 <= a < b < s.len() ==> s[a].message_id < s[b].message_id
}

/// `i` is the first position of `s` holding message id `id`.
pub open spec fn is_first_with_id(s: Seq<Event>, i: int, id: u64) -> bool {
    &&& 0 <= i < s.len()
    &&& s[i].message_id == id
    &&& forall|j: int| 0 <= j < i ==> s[j].message_id != id
}

/// `r` holds, in increasing order of message id, the first event of `s`
/// with each message id that occurs in `s`: what sorting `s` stably by
/// message id and dropping repeated ids leaves.
pub open spec fn sorted_first_occurrences(s: Seq<Event>, r: Seq<Event>) -> bool {
    &&& strictly_increasing(r)
    &&& each_is_first_occurrence(s, r)
    &&& every_id_kept(s, r)
}

/// Every event of `r` is the first event of `s` with its message id.
pub open spec fn each_is_first_occurrence(s: Seq<Event>, r: Seq<Event>) -> bool {
    forall|k: int| #![trigger r[k]] 0 <= k < r.len() ==> exists|i: int| #[trigger] is_first_with_id(s, i, r[k].message_id) && s[i] == r[k]
}

/// Some event of `r` has message id `id`.
pub open spec fn has_id(r: Seq<Event>, id: u64) -> bool {
    exists|k: int| 0 <= k < r.len() && #[trigger] r[k].message_id == id
}

/// Every message id of `s` occurs in `r`.
pub open spec fn every_id_kept(s: Seq<Event>, r: Seq<Event>) -> bool {
    forall|j: int| 0 <= j < s.len() ==> has_id(r, #[trigger] s[j].message_id)
}

/// The events of `event_ids` for one data source, without raw text.
pub fn build_events(event_ids: &[u64], data_source_id: i32) -> (r: Vec<Event>)
    ensures
        r@ == events_of(event_ids@, data_source_id),
{
    let mut r: Vec<Event> = Vec::new();
    let mut i: usize = 0;
    while i < event_ids.len()
        invariant
            i <= event_ids@.len(),
            r@ =~= events_of(event_ids@, data_source_id).take(i as int),
        decreases event_ids@.len() - i,
    {
        r.push(Event { message_id: event_ids[i], data_source_id, raw_event: None });
        i = i + 1;
    }
    assert(events_of(event_ids@, data_source_id).take(i as int) =~= events_of(event_ids@, data_source_id));
    r
}

/// The state of `unique_events` after the first `i` events of `s`: `r`
/// holds the first event of each message id seen so far, sorted, and
/// `src` gives the position in `s` of each of them.
#[verifier::opaque]
spec fn unique_prefix_inv(s: Seq<Event>, r: Seq<Event>, src: Seq<int>, i: int) -> bool {
    &&& 0 <= i <= s.len()
    &&& strictly_increasing(r)
    &&& src.len() == r.len()
    &&& forall|k: int| 0 <= k < r.len() ==> 0 <= #[trigger] src[k] < i && is_first_with_id(s, src[k], r[k].message_id) && s[src[k]] == r[k]
    &&& forall|j: int| 0 <= j < i ==> has_id(r, #[trigger] s[j].message_id)
}

proof fn lemma_unique_init(s: Seq<Event>)
    ensures
        unique_prefix_inv(s, Seq::empty(), Seq::empty(), 0),
{
    reveal(unique_prefix_inv);
}

proof fn lemma_unique_skip(s: Seq<Event>, r: Seq<Event>, src: Seq<int>, i: int, k: int)
    requires
        unique_prefix_inv(s, r, src, i),
        i < s.len(),
        0 <= k < r.len(),
        r[k].message_id == s[i].message_id,
    ensures
        unique_prefix_inv(s, r, src, i + 1),
{
    reveal(unique_prefix_inv);
    assert forall|j: int| 0 <= j < i + 1 implies has_id(r, #[trigger] s[j].message_id) by {
        if j == i {
            assert(r[k].message_id == s[j].message_id);
        }
    }
}

proof fn lemma_unique_insert(s: Seq<Event>, r: Seq<Event>, src: Seq<int>, i: int, k: int)
    requires
        unique_prefix_inv(s, r, src, i),
        i < s.len(),
        0 <= k <= r.len(),
        forall|m: int| 0 <= m < k ==> #[trigger] r[m].message_id < s[i].message_id,
        k < r.len() ==> r[k].message_id > s[i].message_id,
    ensures
        unique_prefix_inv(s, r.insert(k, s[i]), src.insert(k, i), i + 1),
{
    reveal(unique_prefix_inv);
    let e = s[i];
    let nr = r.insert(k, e);
    let nsrc = src.insert(k, i);
    assert forall|j: int| 0 <= j < i implies s[j].message_id != e.message_id by {
        assert(has_id(r, s[j].message_id));
        let kk = choose|kk: int| 0 <= kk < r.len() && #[trigger] r[kk].message_id == s[j].message_id;
        if kk < k {
            assert(r[kk].message_id < e.message_id);
        } else {
            assert(r[k].message_id <= r[kk].message_id);
        }
    }
    assert(is_first_with_id(s, i, e.message_id));
    assert forall|k2: int| 0 <= k2 < nr.len() implies 0 <= #[trigger] nsrc[k2] < i + 1 && is_first_with_id(s, nsrc[k2], nr[k2].message_id) && s[nsrc[k2]] == nr[k2] by {
        if k2 < k {
            assert(nsrc[k2] == src[k2]);
        } else if k2 > k {
            assert(nsrc[k2] == src[k2 - 1]);
        }
    }
    assert forall|a: int, b: int| 0 <= a < b < nr.len() implies nr[a].message_id < nr[b].message_id by {
        if b < k {
        } else if b == k {
            assert(r[a].message_id < e.message_id);
        } else if a < k {
            assert(r[a].message_id < e.message_id);
            assert(r[k].message_id <= r[b - 1].message_id);
        } else if a == k {
            assert(r[k].message_id <= r[b - 1].message_id);
        } else {
        }
    }
    assert forall|j: int| 0 <= j < i + 1 implies has_id(nr, #[trigger] s[j].message_id) by {
        if j == i {
            assert(nr[k].message_id == s[j].message_id);
        } else {
            assert(has_id(r, s[j].message_id));
            let kk = choose|kk: int| 0 <= kk < r.len() && #[trigger] r[kk].message_id == s[j].message_id;
            if kk < k {
                assert(nr[kk].message_id == s[j].message_id);
            } else {
                assert(nr[kk + 1].message_id == s[j].message_id);
            }
        }
    }
}

proof fn lemma_unique_final(s: Seq<Event>, r: Seq<Event>, src: Seq<int>)
    requires
        unique_prefix_inv(s, r, src, s.len() as int),
    ensures
        sorted_first_occurrences(s, r),
{
    reveal(unique_prefix_inv);
    assert forall|k: int| #![trigger r[k]] 0 <= k < r.len() implies exists|i: int| #[trigger] is_first_with_id(s, i, r[k].message_id) && s[i] == r[k] by {
        assert(is_first_with_id(s, src[k], r[k].message_id));
    }
}

/// The events of `events` in reverse order.
fn reversed(events: Vec<Event>) -> (rev: Vec<Event>)
    ensures
        rev@.len() == events@.len(),
        forall|t: int| 0 <= t < rev@.len() ==> #[trigger] rev@[t] == events@[events@.len() - 1 - t],
{
    let ghost s = events@;
    let n = events.len();
    let mut events = events;
    let mut rev: Vec<Event> = Vec::new();
    while events.len() > 0
        invariant
            n == s.len(),
            events@ == s.take(events@.len() as int),
            rev@.len() == n - events@.len(),
            forall|t: int| 0 <= t < rev@.len() ==> #[trigger] rev@[t] == s[n - 1 - t],
        decreases events@.len(),
    {
        let e = events.pop().unwrap();
        rev.push(e);
        assert(events@ =~= s.take(events@.len() as int));
    }
    rev
}

/// The first position of the sorted `r` whose message id is not below `id`.
fn lower_bound(r: &Vec<Event>, id: u64) -> (k: usize)
    ensures
        k <= r@.len(),
        forall|m: int| 0 <= m < k ==> #[trigger] r@[m].message_id < id,
        k < r@.len() ==> r@[k as int].message_id >= id,
{
    let mut k: usize = 0;
    while k < r.len() && r[k].message_id < id
        invariant
            k <= r@.len(),
            forall|m: int| 0 <= m < k ==> #[trigger] r@[m].message_id < id,
        decreases r@.len() - k,
    {
        k = k + 1;
    }
    k
}

/// The first event of each message id, sorted by message id: what
/// `sort` followed by `dedup` leaves, as both compare message ids only.
pub fn unique_events(events: Vec<Event>) -> (r: Vec<Event>)
    ensures
        sorted_first_occurrences(events@, r@),
{
    let ghost s = events@;
    let n = events.len();
    let mut rev = reversed(events);
    let mut r: Vec<Event> = Vec::new();
    let ghost mut src: Seq<int> = Seq::empty();
    proof {
        lemma_unique_init(s);
    }
    let mut i: usize = 0;
    while i < n
        invariant
            n == s.len(),
            i <= n,
            rev@.len() == n - i,
            forall|t: int| 0 <= t < rev@.len() ==> #[trigger] rev@[t] == s[n - 1 - t],
            unique_prefix_inv(s, r@, src, i as int),
        decreases n - i,
    {
        let e = rev.pop().unwrap();
        assert(e == s[i as int]);
        let k = lower_bound(&r, e.message_id);
        if k < r.len() && r[k].message_id == e.message_id {
            proof {
                lemma_unique_skip(s, r@, src, i as int, k as int);
            }
        } else {
            proof {
                lemma_unique_insert(s, r@, src, i as int, k as int);
                src = src.insert(k as int, i as int);
            }
            r.insert(k, e);
        }
        i = i + 1;
    }
    proof {
        lemma_unique_final(s, r@, src);
    }
    r
}

/// Every new event of a batch of updates, one per message id, sorted by
/// message id: the events of each `(data source, event ids)` pair in turn,
/// sorted and deduplicated by message id.
pub fn events_to_add(batches: &Vec<(i32, Vec<u64>)>) -> (r: Vec<Event>)
    ensures
        sorted_first_occurrences(
            batches@.map_values(|b: (i32, Vec<u64>)| events_of(b.1@, b.0)).flatten(),
            r@,
        ),
{
    let ghost all = batches@.map_values(|b: (i32, Vec<u64>)| events_of(b.1@, b.0));
    let mut flat: Vec<Event> = Vec::new();
    let mut i: usize = 0;
    while i < batches.len()
        invariant
            i <= batches@.len(),
            all == batches@.map_values(|b: (i32, Vec<u64>)| events_of(b.1@, b.0)),
            flat@ == all.take(i as int).flatten(),
        decreases batches@.len() - i,
    {
        let mut part = build_events(batches[i].1.as_slice(), batches[i].0);
        proof {
            assert(all.take(i + 1).drop_last() =~= all.take(i as int));
            all.take(i as int).lemma_flatten_push(all[i as int]);
            assert(all.take(i as int).push(all[i as int]) =~= all.take(i + 1));
        }
        flat.append(&mut part);
        i = i + 1;
    }
    assert(all.take(i as int) =~= all);
    unique_events(flat)
}

/// The most message ids one request may ask for.
pub const MAX_MESSAGE_IDS: usize = 100;

/// What a request for events gets.
#[derive(Clone, Copy, Debug, PartialEq, Eq, Structural)]
pub enum EventsRequest {
    /// The events are looked up.
    Fetch,
    /// Too many message ids were asked for.
    TooMany,
    /// The data source or the message ids are missing.
    Missing,
}

/// What a request for events gets, given whether it names a data source
/// and how many message ids it asks for.
pub fn events_request(has_data_source: bool, message_ids: Option<usize>) -> (r: EventsRequest)
    ensures
        r == match message_ids {
            Some(n) => if !has_data_source {
                EventsRequest::Missing
            } else if n <= MAX_MESSAGE_IDS {
                EventsRequest::Fetch
            } else {
                EventsRequest::TooMany
            },
            None => EventsRequest::Missing,
        },
{
    match message_ids {
        Some(n) => if !has_data_source {
            EventsRequest::Missing
        } else if n <= MAX_MESSAGE_IDS {
            EventsRequest::Fetch
        } else {
            EventsRequest::TooMany
        },
        None => EventsRequest::Missing,
    }
}

/// The error message of a refused request for events.
pub fn events_request_message(r: EventsRequest) -> (m: &'static str)
    ensures
        r == EventsRequest::TooMany ==> m@ == "The number of message_id must be less than or equal to 100."@,
        r != EventsRequest::TooMany ==> m@ == "Missing required query parameters."@,
{
    match r {
        EventsRequest::TooMany => "The number of message_id must be less than or equal to 100.",
        _ => "Missing required query parameters.",
    }
}

/// The message ids above `upper`, in order: those a Kafka offset range
/// ending at `upper` does not cover.
pub fn ids_after(ids: &Vec<u64>, upper: u64) -> (r: Vec<u64>)
    ensures
        r@ == ids@.filter(|v: u64| upper < v),
{
    let ghost pred = |v: u64| upper < v;
    let mut r: Vec<u64> = Vec::new();
    let mut i: usize = 0;
    while i < ids.len()
        invariant
            i <= ids@.len(),
            pred == (|v: u64| upper < v),
            r@ == ids@.take(i as int).filter(pred),
        decreases ids@.len() - i,
    {
        let v = ids[i];
        let ghost old_r = r@;
        if upper < v {
            r.push(v);
        }
        proof {
            reveal(Seq::filter);
            assert(pred(v) == (upper < v));
            assert(old_r == ids@.take(i as int).filter(pred));
            let t = ids@.take(i + 1);
            assert(t.drop_last() =~= ids@.take(i as int));
            assert(t.last() == v);
            assert(t.filter(pred) == if pred(v) { t.drop_last().filter(pred).push(v) } else { t.drop_last().filter(pred) });
            assert(r@ == t.filter(pred));
        }
        i = i + 1;
    }
    assert(ids@.take(i as int) =~= ids@);
    r
}

/// The search for the Kafka messages that hold the events without raw
/// text: the message ids not yet covered, in ascending order, and the
/// (partition, offset) of each message found so far.
pub struct NoRawEventScan {
    pub remaining: Vec<u64>,
    pub metadata: Vec<(u64, u64)>,
}

impl NoRawEventScan {
    /// The search for these message ids, none covered yet.
    pub fn new(ids: &Vec<u64>) -> (r: Self)
        ensures
            crate::examples::ascending(r.remaining@),
            r.remaining@.to_multiset() == ids@.to_multiset(),
            r.metadata@ == Seq::<(u64, u64)>::empty(),
    {
        NoRawEventScan { remaining: crate::examples::sort_ids(ids), metadata: Vec::new() }
    }

    /// The message id to look up next: the smallest one not yet covered.
    pub fn next_id(&self) -> (r: Option<u64>)
        ensures
            r == if self.remaining@.len() > 0 { Some(self.remaining@[0]) } else { None },
    {
        if self.remaining.len() > 0 {
            Some(self.remaining[0])
        } else {
            None
        }
    }

    /// Takes in what the lookup of the next id found: the last message id
    /// of the Kafka message that holds it, that message's partition and
    /// offset. The ids up to that last one are covered and the message is
    /// recorded. Returns whether to go on: not after a failed lookup, nor
    /// once every id is covered.
    pub fn advance(&mut self, found: Option<(u64, u64, u64)>) -> (more: bool)
        ensures
            match found {
                None => *final(self) == *old(self) && !more,
                Some((upper, partition, offsets)) => {
                    &&& final(self).remaining@ == old(self).remaining@.filter(|v: u64| upper < v)
                    &&& final(self).metadata@ == old(self).metadata@.push((partition, offsets))
                    &&& more == (final(self).remaining@.len() > 0)
                },
            },
    {
        match found {
            None => false,
            Some((upper, partition, offsets)) => {
                let rest = ids_after(&self.remaining, upper);
                self.remaining = rest;
                self.metadata.push((partition, offsets));
                self.remaining.len() > 0
            },
        }
    }
}

/// A lookup that covers the id it was asked for (its last message id is
/// at least that id) takes that id out of the search: the search shrinks
/// at every such step.
pub proof fn law_scan_progress(remaining: Seq<u64>, upper: u64)
    requires
        remaining.len() > 0,
        upper >= remaining[0],
    ensures
        remaining.filter(|v: u64| upper < v).len() < remaining.len(),
        !remaining.filter(|v: u64| upper < v).contains(remaining[0]),
{
    let p = |v: u64| upper < v;
    let tail = remaining.drop_first();
    assert(remaining =~= seq![remaining[0]] + tail);
    tail.lemma_filter_prepend(remaining[0], p);
    assert(!p(remaining[0]));
    assert(remaining.filter(p) =~= tail.filter(p));
    tail.lemma_filter_len(p);
    if remaining.filter(p).contains(remaining[0]) {
        let i = choose|i: int| 0 <= i < remaining.filter(p).len() && remaining.filter(p)[i] == remaining[0];
        remaining.lemma_filter_pred(p, i);
    }
}


proof fn lemma_same_ids_same_order(a: Seq<Event>, b: Seq<Event>)
    requires
        strictly_increasing(a),
        strictly_increasing(b),
        forall|x: u64| has_id(a, x) <==> has_id(b, x),
    ensures
        a.len() == b.len(),
        forall|k: int| 0 <= k < a.len() ==> a[k].message_id == b[k].message_id,
    decreases a.len() + b.len(),
{
    if a.len() == 0 {
        if b.len() > 0 {
            assert(has_id(b, b[0].message_id));
        }
    } else if b.len() == 0 {
        assert(has_id(a, a[0].message_id));
    } else {
        let ma = a.last().message_id;
        let mb = b.last().message_id;
        assert(has_id(a, ma));
        assert(has_id(b, mb));
        let ib = choose|k: int| 0 <= k < b.len() && #[trigger] b[k].message_id == ma;
        let ia = choose|k: int| 0 <= k < a.len() && #[trigger] a[k].message_id == mb;
        if ib < b.len() - 1 {
            assert(b[ib].message_id < mb);
        }
        if ia < a.len() - 1 {
            assert(a[ia].message_id < ma);
        }
        assert(ma == mb);
        let a2 = a.drop_last();
        let b2 = b.drop_last();
        assert forall|x: u64| has_id(a2, x) implies has_id(b2, x) by {
            let k = choose|k: int| 0 <= k < a2.len() && #[trigger] a2[k].message_id == x;
            assert(a[k].message_id == x);
            assert(x < ma);
            assert(has_id(a, x));
            let j = choose|j: int| 0 <= j < b.len() && #[trigger] b[j].message_id == x;
            assert(j != b.len() - 1);
            assert(b2[j].message_id == x);
        }
        assert forall|x: u64| has_id(b2, x) implies has_id(a2, x) by {
            let k = choose|k: int| 0 <= k < b2.len() && #[trigger] b2[k].message_id == x;
            assert(b[k].message_id == x);
            assert(x < mb);
            assert(has_id(b, x));
            let j = choose|j: int| 0 <= j < a.len() && #[trigger] a[j].message_id == x;
            assert(j != a.len() - 1);
            assert(a2[j].message_id == x);
        }
        lemma_same_ids_same_order(a2, b2);
        assert forall|k: int| 0 <= k < a.len() implies a[k].message_id == b[k].message_id by {
            if k < a.len() - 1 {
                assert(a2[k] == a[k]);
                assert(b2[k] == b[k]);
            }
        }
    }
}

/// Removing repeated events is idempotent: doing it again to its result,
/// which is already sorted and has one event per message id, gives that
/// result back unchanged.
pub proof fn law_unique_events_idempotent(s: Seq<Event>, r: Seq<Event>, r2: Seq<Event>)
    requires
        sorted_first_occurrences(s, r),
        sorted_first_occurrences(r, r2),
    ensures
        r2 == r,
{
    assert forall|x: u64| has_id(r, x) <==> has_id(r2, x) by {
        if has_id(r, x) {
            let j = choose|j: int| 0 <= j < r.len() && #[trigger] r[j].message_id == x;
            assert(has_id(r2, r[j].message_id));
        }
        if has_id(r2, x) {
            let k = choose|k: int| 0 <= k < r2.len() && #[trigger] r2[k].message_id == x;
            let i = choose|i: int| #[trigger] is_first_with_id(r, i, r2[k].message_id) && r[i] == r2[k];
            assert(r[i].message_id == x);
        }
    }
    lemma_same_ids_same_order(r, r2);
    assert forall|k: int| 0 <= k < r.len() implies r2[k] == r[k] by {
        let i = choose|i: int| #[trigger] is_first_with_id(r, i, r2[k].message_id) && r[i] == r2[k];
        assert(r[i].message_id == r[k].message_id);
        if i < k {
            assert(r[i].message_id < r[k].message_id);
        } else if i > k {
            assert(r[k].message_id < r[i].message_id);
        }
    }
    assert(r2 =~= r);
}

} // verus!
