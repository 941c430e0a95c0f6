//! What one round of the consumer computes: the metadata of the messages
//! read from a topic, the events whose raw text was found, and the URLs
//! and batches of the requests that carry them to reviewd.

use vstd::prelude::*;
use crate::kafka_consumer::api_url;
use crate::text::{i64_to_string, latin1, push_char, signed_decimal};

verus! {

/// The requests that carry many items send them in batches of this many.
pub const PUT_CHUNK_SIZE: usize = 40;

/// Where a Kafka message lies, and the first and last message ids (the
/// times of its first and last entries) it holds.
pub struct KafkaMetadata {
    pub data_source_id: i32,
    pub first_message_id: u64,
    pub last_message_id: u64,
    pub offsets: i64,
    pub partition: i32,
}

/// A message read from a topic: its offset, and the times of its entries
/// when it could be decoded.
pub struct ReadMessage {
    pub offset: i64,
    pub entry_times: Option<Vec<u64>>,
}

/// Every message that could be decoded has at least one entry.
pub open spec fn entries_present(messages: Seq<ReadMessage>) -> bool {
    forall|i: int| 0 <= i < messages.len() ==>
        ((#[trigger] messages[i]).entry_times matches Some(t) ==> t@.len() > 0)
}

/// The metadata of one decoded message.
pub open spec fn metadata_spec(data_source_id: i32, partition: i32, offset: i64, times: Seq<u64>) -> KafkaMetadata {
    KafkaMetadata {
        data_source_id,
        first_message_id: times[0],
        last_message_id: times[times.len() - 1],
        offsets: offset,
        partition,
    }
}

/// The metadata of the decoded messages among the first `k` of a message
/// set, in order.
pub open spec fn set_metadata(data_source_id: i32, partition: i32, messages: Seq<ReadMessage>, k: int) -> Seq<KafkaMetadata>
    decreases k,
{
    if k <= 0 {
        Seq::empty()
    } else {
        let before = set_metadata(data_source_id, partition, messages, k - 1);
        match messages[k - 1].entry_times {
            Some(t) => before.push(metadata_spec(data_source_id, partition, messages[k - 1].offset, t@)),
            None => before,
        }
    }
}

/// The metadata of a decoded message: where it lies and the times of its
/// first and last entries.
pub fn message_metadata(data_source_id: i32, partition: i32, offset: i64, entry_times: &Vec<u64>) -> (r: KafkaMetadata)
    requires
        entry_times@.len() > 0,
    ensures
        r == metadata_spec(data_source_id, partition, offset, entry_times@),
{
    KafkaMetadata {
        data_source_id,
        first_message_id: entry_times[0],
        last_message_id: entry_times[entry_times.len() - 1],
        offsets: offset,
        partition,
    }
}

/// The metadata gathered so far in a round, and how many messages it
/// counts.
pub struct MetadataBatch {
    pub offset_count: usize,
    pub metadata: Vec<KafkaMetadata>,
}

impl MetadataBatch {
    /// A round that has read nothing yet.
    pub fn new() -> (r: Self)
        ensures
            r.offset_count == 0,
            r.metadata@ == Seq::<KafkaMetadata>::empty(),
    {
        MetadataBatch { offset_count: 0, metadata: Vec::new() }
    }

    /// Takes in one message set of a partition: the metadata of each
    /// decoded message is added, in order, and counted. Returns whether the
    /// set gave any metadata, in which case it is to be marked consumed.
    pub fn absorb(&mut self, data_source_id: i32, partition: i32, messages: &Vec<ReadMessage>) -> (consumed: bool)
        requires
            entries_present(messages@),
            old(self).offset_count + messages@.len() <= usize::MAX,
        ensures
            final(self).metadata@ == old(self).metadata@ + set_metadata(data_source_id, partition, messages@, messages@.len() as int),
            final(self).offset_count == old(self).offset_count + set_metadata(data_source_id, partition, messages@, messages@.len() as int).len(),
            consumed == (set_metadata(data_source_id, partition, messages@, messages@.len() as int).len() > 0),
    {
        let ghost before = self.metadata@;
        let ghost count0 = self.offset_count as int;
        let mut found: usize = 0;
        let mut i: usize = 0;
        while i < messages.len()
            invariant
                i <= messages@.len(),
                entries_present(messages@),
                count0 + messages@.len() <= usize::MAX,
                self.metadata@ == before + set_metadata(data_source_id, partition, messages@, i as int),
                found == set_metadata(data_source_id, partition, messages@, i as int).len(),
                found <= i,
                self.offset_count == count0 + found,
            decreases messages@.len() - i,
        {
            let m = &messages[i];
            proof {
                assert(entries_present(messages@));
                assert(messages@[i as int] == *m);
            }
            match &m.entry_times {
                Some(times) => {
                    let md = message_metadata(data_source_id, partition, m.offset, times);
                    self.metadata.push(md);
                    self.offset_count = self.offset_count + 1;
                    found = found + 1;
                },
                None => {},
            }
            i = i + 1;
            proof {
                assert(self.metadata@ =~= before + set_metadata(data_source_id, partition, messages@, i as int));
            }
        }
        found > 0
    }

    /// The round has read as many messages as it may.
    pub fn is_full(&self, max_offset_count: usize) -> (r: bool)
        ensures
            r == (self.offset_count >= max_offset_count),
    {
        self.offset_count >= max_offset_count
    }
}

/// The first `max` (partition, offset) pairs, or all of them when there
/// are no more.
pub fn first_offsets(metadata: Vec<(i32, i64)>, max: usize) -> (r: Vec<(i32, i64)>)
    ensures
        r@ == if metadata@.len() > max { metadata@.take(max as int) } else { metadata@ },
{
    if metadata.len() > max {
        let mut r: Vec<(i32, i64)> = Vec::new();
        let mut i: usize = 0;
        while i < max
            invariant
                i <= max,
                max < metadata@.len(),
                r@ == metadata@.take(i as int),
            decreases max - i,
        {
            r.push(metadata[i]);
            i = i + 1;
            assert(r@ =~= metadata@.take(i as int));
        }
        r
    } else {
        metadata
    }
}

/// The text of raw event bytes, one character per byte (each byte read as
/// Latin-1, as `char::from` maps it).
pub fn bytes_to_string(bytes: &[u8]) -> (r: String)
    ensures
        r@ == bytes@.map_values(|b: u8| latin1(b)),
{
    let mut r = String::new();
    let mut i: usize = 0;
    while i < bytes.len()
        invariant
            i <= bytes@.len(),
            r@ == bytes@.take(i as int).map_values(|b: u8| latin1(b)),
        decreases bytes@.len() - i,
    {
        let b = bytes[i];
        push_char(&mut r, b as char);
        i = i + 1;
        assert(r@ =~= bytes@.take(i as int).map_values(|b: u8| latin1(b)));
    }
    assert(bytes@.take(i as int) =~= bytes@);
    r
}

/// An event whose raw text was found in Kafka.
pub struct FetchedEvent {
    pub message_id: u64,
    pub raw_event: Option<String>,
    pub data_source_id: i32,
}

/// The index of the last entry among the first `k` whose time is `id`.
pub open spec fn last_entry_with(entries: Seq<(u64, Vec<u8>)>, id: u64, k: int) -> Option<int>
    decreases k,
{
    if k <= 0 {
        None
    } else if entries[k - 1].0 == id {
        Some(k - 1)
    } else {
        last_entry_with(entries, id, k - 1)
    }
}

/// The raw text found for a message id: that of the last entry with that
/// time.
pub open spec fn raw_text_of(entries: Seq<(u64, Vec<u8>)>, id: u64) -> Option<Seq<char>> {
    match last_entry_with(entries, id, entries.len() as int) {
        Some(i) => Some(entries[i].1@.map_values(|b: u8| latin1(b))),
        None => None,
    }
}

/// The message ids among the first `k` for which an entry was found.
pub open spec fn found_ids(ids: Seq<u64>, entries: Seq<(u64, Vec<u8>)>, k: int) -> Seq<u64>
    decreases k,
{
    if k <= 0 {
        Seq::empty()
    } else {
        let before = found_ids(ids, entries, k - 1);
        if raw_text_of(entries, ids[k - 1]) is Some {
            before.push(ids[k - 1])
        } else {
            before
        }
    }
}

/// The events for the wanted message ids, in their order, that an entry
/// was found for; each carries the text of the last entry with its time.
pub fn events_with_raw_text(message_ids: &Vec<u64>, entries: &Vec<(u64, Vec<u8>)>, data_source_id: i32) -> (r: Vec<FetchedEvent>)
    ensures
        r@.len() == found_ids(message_ids@, entries@, message_ids@.len() as int).len(),
        forall|k: int| 0 <= k < r@.len() ==> {
            let id = found_ids(message_ids@, entries@, message_ids@.len() as int)[k];
            &&& (#[trigger] r@[k]).message_id == id
            &&& r@[k].data_source_id == data_source_id
            &&& (r@[k].raw_event matches Some(t) && raw_text_of(entries@, id) == Some(t@))
        },
{
    let mut r: Vec<FetchedEvent> = Vec::new();
    let mut i: usize = 0;
    while i < message_ids.len()
        invariant
            i <= message_ids@.len(),
            r@.len() == found_ids(message_ids@, entries@, i as int).len(),
            forall|k: int| 0 <= k < r@.len() ==> {
                let id = found_ids(message_ids@, entries@, i as int)[k];
                &&& (#[trigger] r@[k]).message_id == id
                &&& r@[k].data_source_id == data_source_id
                &&& (r@[k].raw_event matches Some(t) && raw_text_of(entries@, id) == Some(t@))
            },
        decreases message_ids@.len() - i,
    {
        let id = message_ids[i];
        let mut j: usize = entries.len();
        while j > 0 && entries[j - 1].0 != id
            invariant
                j <= entries@.len(),
                last_entry_with(entries@, id, entries@.len() as int) == last_entry_with(entries@, id, j as int),
            decreases j,
        {
            j = j - 1;
        }
        if j > 0 {
            let text = bytes_to_string(entries[j - 1].1.as_slice());
            proof {
                assert(last_entry_with(entries@, id, j as int) == Some(j - 1));
            }
            r.push(FetchedEvent { message_id: id, raw_event: Some(text), data_source_id });
        }
        i = i + 1;
    }
    r
}

/// Where the metadata of new messages is stored.
pub fn kafka_metadata_url(reviewd_addr: &str) -> (r: String)
    ensures
        r@ == api_url(reviewd_addr@, "kafka_metadata"@),
{
    let mut r = String::from_str("http://");
    r.append(reviewd_addr);
    r.append("/api/");
    r.append("kafka_metadata");
    r
}

/// Where the events of a data source that have no raw text are listed.
pub fn no_raw_events_url(reviewd_addr: &str, data_source_id: i32) -> (r: String)
    ensures
        r@ == api_url(reviewd_addr@, "event/no_raw_events?data_source_id="@ + signed_decimal(data_source_id as int)),
{
    let mut r = String::from_str("http://");
    r.append(reviewd_addr);
    r.append("/api/");
    r.append("event/no_raw_events?data_source_id=");
    let id = i64_to_string(data_source_id as i64);
    r.append(id.as_str());
    assert(r@ =~= api_url(reviewd_addr@, "event/no_raw_events?data_source_id="@ + signed_decimal(data_source_id as int)));
    r
}

/// Where events with their raw text are stored.
pub fn event_url(reviewd_addr: &str) -> (r: String)
    ensures
        r@ == api_url(reviewd_addr@, "event"@),
{
    let mut r = String::from_str("http://");
    r.append(reviewd_addr);
    r.append("/api/");
    r.append("event");
    r
}

/// The end of batch `k` of `len` items: `PUT_CHUNK_SIZE` items after its
/// start, or the end of the items.
pub open spec fn chunk_end_of(len: int, k: int) -> int {
    if PUT_CHUNK_SIZE * (k + 1) < len { PUT_CHUNK_SIZE * (k + 1) } else { len }
}

/// The bounds of the batches `len` items are sent in: `ceil(len / 40)`
/// batches, batch `k` holding items `40 k .. min(40 k + 40, len)`; so the
/// batches are consecutive, cover `0..len`, and each but the last is full.
pub fn put_chunks(len: usize) -> (r: Vec<(usize, usize)>)
    ensures
        r@.len() == (len + PUT_CHUNK_SIZE - 1) / (PUT_CHUNK_SIZE as int),
        forall|k: int| 0 <= k < r@.len() ==> (#[trigger] r@[k]).0 == PUT_CHUNK_SIZE * k && r@[k].1 == chunk_end_of(len as int, k),
        len == 0 <==> r@.len() == 0,
        r@.len() > 0 ==> r@[0].0 == 0 && r@[r@.len() - 1].1 == len,
        forall|k: int| 0 <= k < r@.len() - 1 ==> (#[trigger] r@[k]).1 == r@[k + 1].0,
        forall|k: int| 0 <= k < r@.len() - 1 ==> (#[trigger] r@[k]).1 - r@[k].0 == PUT_CHUNK_SIZE,
        forall|k: int| 0 <= k < r@.len() ==> 0 < (#[trigger] r@[k]).1 - r@[k].0 <= PUT_CHUNK_SIZE,
{
    let mut r: Vec<(usize, usize)> = Vec::new();
    let mut start: usize = 0;
    while start < len
        invariant
            start <= len,
            start < len ==> start == PUT_CHUNK_SIZE * r@.len(),
            r@.len() > 0 ==> PUT_CHUNK_SIZE * (r@.len() - 1) < len && start == r@[r@.len() - 1].1,
            r@.len() == 0 ==> start == 0,
            forall|k: int| 0 <= k < r@.len() ==> (#[trigger] r@[k]).0 == PUT_CHUNK_SIZE * k && r@[k].1 == chunk_end_of(len as int, k),
        decreases len - start,
    {
        let end = if len - start > PUT_CHUNK_SIZE { start + PUT_CHUNK_SIZE } else { len };
        r.push((start, end));
        start = end;
    }
    proof {
        let n = r@.len() as int;
        if n > 0 {
            assert(r@[n - 1].1 == chunk_end_of(len as int, n - 1));
            assert(len <= PUT_CHUNK_SIZE * n);
            vstd::arithmetic::div_mod::lemma_fundamental_div_mod_converse(
                len + PUT_CHUNK_SIZE - 1, PUT_CHUNK_SIZE as int, n, len + PUT_CHUNK_SIZE - 1 - PUT_CHUNK_SIZE * n);
        }
        assert forall|k: int| 0 <= k < r@.len() - 1 implies (#[trigger] r@[k]).1 == r@[k + 1].0 by {
            assert(r@[k + 1].0 == PUT_CHUNK_SIZE * (k + 1));
            assert(PUT_CHUNK_SIZE * (k + 1) <= PUT_CHUNK_SIZE * (n - 1));
        }
    }
    r
}

} // verus!
