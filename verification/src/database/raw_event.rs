//! Matching events read back from Kafka to the clusters and outliers that
//! still lack their raw event.

use vstd::prelude::*;
use crate::kafka_consumer::fetch::bytes_to_string;
use crate::text::{latin1, str_eq};

verus! {

/// The largest id of a non-empty list.
pub open spec fn max_of(s: Seq<u64>) -> u64
    decreases s.len(),
{
    if s.len() <= 1 {
        s[0]
    } else {
        let m = max_of(s.drop_last());
        if s.last() > m { s.last() } else { m }
    }
}

/// The largest id of a list.
fn max_id(ids: &Vec<u64>) -> (r: Option<u64>)
    ensures
        match r {
            Some(m) => ids@.len() > 0 && m == max_of(ids@),
            None => ids@.len() == 0,
        },
{
    if ids.len() == 0 {
        return None;
    }
    let mut m = ids[0];
    let mut i: usize = 1;
    assert(ids@.take(1).len() == 1);
    while i < ids.len()
        invariant
            1 <= i <= ids@.len(),
            m == max_of(ids@.take(i as int)),
        decreases ids@.len() - i,
    {
        if ids[i] > m {
            m = ids[i];
        }
        assert(ids@.take(i + 1).drop_last() =~= ids@.take(i as int));
        i = i + 1;
    }
    assert(ids@.take(i as int) =~= ids@);
    Some(m)
}

/// Each row with event ids, paired with its largest id.
pub open spec fn latest_ids_spec(rows: Seq<(i32, Option<Vec<u64>>)>) -> Seq<(i32, u64)>
    decreases rows.len(),
{
    if rows.len() == 0 {
        Seq::empty()
    } else {
        let rest = latest_ids_spec(rows.drop_last());
        match rows.last().1 {
            Some(ids) => if ids@.len() > 0 { rest.push((rows.last().0, max_of(ids@))) } else { rest },
            None => rest,
        }
    }
}

/// The rows that have event ids, each with its largest (most recent) one.
pub fn latest_event_ids(rows: &Vec<(i32, Option<Vec<u64>>)>) -> (r: Vec<(i32, u64)>)
    ensures
        r@ == latest_ids_spec(rows@),
{
    let mut r: Vec<(i32, u64)> = Vec::new();
    let mut i: usize = 0;
    while i < rows.len()
        invariant
            i <= rows@.len(),
            r@ == latest_ids_spec(rows@.take(i as int)),
        decreases rows@.len() - i,
    {
        if let Some(ids) = &rows[i].1 {
            if let Some(m) = max_id(ids) {
                r.push((rows[i].0, m));
            }
        }
        proof {
            let t = rows@.take(i + 1);
            assert(t.drop_last() =~= rows@.take(i as int));
            assert(t.last() == rows@[i as int]);
        }
        i = i + 1;
    }
    assert(rows@.take(i as int) =~= rows@);
    r
}

/// The first row whose id is `id`.
pub open spec fn first_with(rows: Seq<(i32, u64)>, id: u64) -> Option<i32>
    decreases rows.len(),
{
    if rows.len() == 0 {
        None
    } else if rows[0].1 == id {
        Some(rows[0].0)
    } else {
        first_with(rows.drop_first(), id)
    }
}

fn find_row(rows: &Vec<(i32, u64)>, id: u64) -> (r: Option<i32>)
    ensures
        r == first_with(rows@, id),
{
    let mut i: usize = 0;
    assert(rows@.skip(0) =~= rows@);
    while i < rows.len()
        invariant
            i <= rows@.len(),
            first_with(rows@, id) == first_with(rows@.skip(i as int), id),
        decreases rows@.len() - i,
    {
        assert(rows@.skip(i as int)[0] == rows@[i as int]);
        assert(rows@.skip(i as int).drop_first() =~= rows@.skip(i + 1));
        if rows[i].1 == id {
            return Some(rows[i].0);
        }
        i = i + 1;
    }
    None
}

/// The cluster (`true`) or outlier (`false`) an event read back from Kafka
/// belongs to: the first cluster whose latest event it is, else the first
/// such outlier.
pub fn owner_of_event(id: u64, clusters: &Vec<(i32, u64)>, outliers: &Vec<(i32, u64)>) -> (r: Option<(i32, bool)>)
    ensures
        r == match first_with(clusters@, id) {
            Some(c) => Some((c, true)),
            None => match first_with(outliers@, id) {
                Some(o) => Some((o, false)),
                None => None,
            },
        },
{
    match find_row(clusters, id) {
        Some(c) => Some((c, true)),
        None => match find_row(outliers, id) {
            Some(o) => Some((o, false)),
            None => None,
        },
    }
}

/// The id of the last stored raw event with this text: a map from text to
/// id keeps the last one.
pub open spec fn raw_event_id_spec(raw_events: Seq<(i32, String)>, data: Seq<char>) -> Option<i32>
    decreases raw_events.len(),
{
    if raw_events.len() == 0 {
        None
    } else if raw_events.last().1@ == data {
        Some(raw_events.last().0)
    } else {
        raw_event_id_spec(raw_events.drop_last(), data)
    }
}

/// The id under which a raw event's text was stored.
pub fn raw_event_id_of(raw_events: &Vec<(i32, String)>, data: &str) -> (r: Option<i32>)
    ensures
        r == raw_event_id_spec(raw_events@, data@),
{
    let mut i = raw_events.len();
    assert(raw_events@.take(i as int) =~= raw_events@);
    while i > 0
        invariant
            i <= raw_events@.len(),
            raw_event_id_spec(raw_events@, data@) == raw_event_id_spec(raw_events@.take(i as int), data@),
        decreases i,
    {
        let ghost t = raw_events@.take(i as int);
        assert(t.last() == raw_events@[i - 1]);
        assert(t.drop_last() =~= raw_events@.take(i - 1));
        if str_eq(raw_events[i - 1].1.as_str(), data) {
            return Some(raw_events[i - 1].0);
        }
        i = i - 1;
    }
    None
}

/// The cluster (`true`) or outlier (`false`) an event read back belongs
/// to, as `owner_of_event` finds it.
pub open spec fn owner_spec(id: u64, clusters: Seq<(i32, u64)>, outliers: Seq<(i32, u64)>) -> Option<(i32, bool)> {
    match first_with(clusters, id) {
        Some(c) => Some((c, true)),
        None => match first_with(outliers, id) {
            Some(o) => Some((o, false)),
            None => None,
        },
    }
}

/// A raw event to store, and the cluster or outlier to link to it.
pub struct RawEventUpdate {
    pub owner_id: i32,
    pub data: String,
    pub is_cluster: bool,
}

/// The reading of events back from Kafka: how many to read at most, how
/// many were read, and the raw events found for clusters and outliers.
pub struct RawEventIntake {
    pub max_event_count: usize,
    pub event_count: usize,
    pub updates: Vec<RawEventUpdate>,
}

impl RawEventIntake {
    /// A reading that has read nothing yet.
    pub fn new(max_event_count: usize) -> (r: RawEventIntake)
        ensures
            r.max_event_count == max_event_count,
            r.event_count == 0,
            r.updates@.len() == 0,
    {
        RawEventIntake { max_event_count, event_count: 0, updates: Vec::new() }
    }

    /// Takes one event read back, by its time and its `message` field: when
    /// the time is the latest event of a cluster or outlier that lacks its
    /// raw event, and the event has a message, the message's text is kept
    /// for that cluster or outlier. Returns whether to read on: reading
    /// stops once `max_event_count` events were read (after the first one
    /// in any case).
    pub fn take(&mut self, time: u64, message: Option<&[u8]>, clusters: &Vec<(i32, u64)>, outliers: &Vec<(i32, u64)>) -> (more: bool)
        requires
            old(self).event_count < usize::MAX,
        ensures
            final(self).max_event_count == old(self).max_event_count,
            final(self).event_count == old(self).event_count + 1,
            more == (final(self).event_count < final(self).max_event_count),
            match (owner_spec(time, clusters@, outliers@), message) {
                (Some((id, is_cluster)), Some(m)) => {
                    &&& final(self).updates@.len() == old(self).updates@.len() + 1
                    &&& final(self).updates@.take(old(self).updates@.len() as int) == old(self).updates@
                    &&& final(self).updates@.last().owner_id == id
                    &&& final(self).updates@.last().data@ == m@.map_values(|b: u8| latin1(b))
                    &&& final(self).updates@.last().is_cluster == is_cluster
                },
                _ => final(self).updates@ == old(self).updates@,
            },
    {
        self.event_count = self.event_count + 1;
        match owner_of_event(time, clusters, outliers) {
            Some((id, is_cluster)) => match message {
                Some(m) => {
                    let data = bytes_to_string(m);
                    self.updates.push(RawEventUpdate { owner_id: id, data, is_cluster });
                },
                None => {},
            },
            None => {},
        }
        self.event_count < self.max_event_count
    }
}

} // verus!
