//! The clusters the HTTP client reviews: where it reads them, how they are
//! shown, and the qualifier updates it sends back.

use vstd::prelude::*;
use crate::client::error::{ErrorKind, InitializeErrorReason};
use crate::db::models::Example;
use crate::reviewd::database::cluster::QualifierUpdate;
use crate::cluster::{pretty_id_list, pretty_ids};
use crate::text::{debug_quote, debug_quoted, decimal, push_char, str_eq, u64_to_string};
use crate::views::{trim_trailing_slashes, trimmed_url};

verus! {

/// A cluster pending review, as REviewd lists it.
pub struct Cluster {
    pub cluster_id: String,
    pub detector_id: u32,
    pub qualifier: String,
    pub status: String,
    pub category: String,
    pub signature: String,
    pub data_source: String,
    pub size: usize,
    pub score: Option<String>,
    pub examples: Example,
    pub last_modification_time: Option<String>,
}

/// A text with four spaces after each line break: the layout of a pretty
/// listing nested one level inside a struct.
pub open spec fn indented(s: Seq<char>) -> Seq<char>
    decreases s.len(),
{
    if s.len() == 0 {
        Seq::empty()
    } else {
        indented(s.drop_last()) + if s.last() == '\n' {
            seq!['\n', ' ', ' ', ' ', ' ']
        } else {
            seq![s.last()]
        }
    }
}

/// Inserts four spaces after each line break of a text.
pub fn indent(s: &str) -> (r: String)
    ensures
        r@ == indented(s@),
{
    let n = s.unicode_len();
    let mut r = String::new();
    let mut i: usize = 0;
    while i < n
        invariant
            n == s@.len(),
            i <= n,
            r@ == indented(s@.subrange(0, i as int)),
        decreases n - i,
    {
        let c = s.get_char(i);
        proof {
            assert(s@.subrange(0, i + 1).drop_last() =~= s@.subrange(0, i as int));
        }
        push_char(&mut r, c);
        if c == '\n' {
            push_char(&mut r, ' ');
            push_char(&mut r, ' ');
            push_char(&mut r, ' ');
            push_char(&mut r, ' ');
        }
        i = i + 1;
    }
    proof {
        assert(s@.subrange(0, n as int) =~= s@);
    }
    r
}

/// The pretty text of an example, laid out as a struct with its raw event
/// quoted and its ids as a pretty listing.
pub open spec fn example_text_spec(e: Example) -> Seq<char> {
    "Example {\n    raw_event: "@ + debug_quoted(e.raw_event@) + ",\n    event_ids: "@
        + indented(pretty_ids(e.event_ids@)) + ",\n}"@
}

/// The pretty text of an example.
pub fn example_text(e: &Example) -> (r: String)
    ensures
        r@ == example_text_spec(*e),
{
    let mut r = String::from_str("Example {\n    raw_event: ");
    r.append(debug_quote(e.raw_event.as_str()).as_str());
    r.append(",\n    event_ids: ");
    r.append(indent(pretty_id_list(&e.event_ids).as_str()).as_str());
    r.append(",\n}");
    r
}

/// The properties text of a cluster.
pub open spec fn properties_spec(c: Cluster) -> Seq<char> {
    "cluster_id: "@ + c.cluster_id@ + "\ndetector_id: "@ + decimal(c.detector_id as nat) + "\nqualifier: "@
        + c.qualifier@ + "\nstatus: "@ + c.status@ + "\nsignature: "@ + c.signature@ + "\ndata_source: "@
        + c.data_source@ + "\nscore: "@ + match c.score { Some(s) => s@, None => "-"@ } + "\nsize: "@
        + decimal(c.size as nat) + "\nexample: "@ + example_text_spec(c.examples)
        + "\nlast_modification_time: "@ + match c.last_modification_time { Some(t) => t@, None => "-"@ }
}

impl Cluster {
    /// The properties text of the cluster.
    pub fn get_cluster_properties(&self) -> (r: String)
        ensures
            r@ == properties_spec(*self),
    {
        let mut r = String::from_str("cluster_id: ");
        r.append(self.cluster_id.as_str());
        r.append("\ndetector_id: ");
        r.append(u64_to_string(self.detector_id as u64).as_str());
        r.append("\nqualifier: ");
        r.append(self.qualifier.as_str());
        r.append("\nstatus: ");
        r.append(self.status.as_str());
        r.append("\nsignature: ");
        r.append(self.signature.as_str());
        r.append("\ndata_source: ");
        r.append(self.data_source.as_str());
        r.append("\nscore: ");
        match &self.score {
            Some(s) => r.append(s.as_str()),
            None => r.append("-"),
        }
        r.append("\nsize: ");
        r.append(u64_to_string(self.size as u64).as_str());
        r.append("\nexample: ");
        r.append(example_text(&self.examples).as_str());
        r.append("\nlast_modification_time: ");
        match &self.last_modification_time {
            Some(t) => r.append(t.as_str()),
            None => r.append("-"),
        }
        r
    }

    /// Gives the cluster a qualifier; returns whether it changed, in which
    /// case the cluster is to be sent back as updated.
    pub fn save_qualifier(&mut self, qualifier: &str) -> (changed: bool)
        ensures
            final(self).qualifier@ == qualifier@,
            changed == (old(self).qualifier@ != qualifier@),
            final(self).cluster_id == old(self).cluster_id,
            final(self).detector_id == old(self).detector_id,
            final(self).status == old(self).status,
            final(self).category == old(self).category,
            final(self).signature == old(self).signature,
            final(self).data_source == old(self).data_source,
            final(self).size == old(self).size,
            final(self).score == old(self).score,
            final(self).examples == old(self).examples,
            final(self).last_modification_time == old(self).last_modification_time,
    {
        if !str_eq(self.qualifier.as_str(), qualifier) {
            self.qualifier = qualifier.to_string();
            true
        } else {
            false
        }
    }
}

/// The address of the clusters pending review.
pub fn pending_clusters_address(url: &str) -> (r: String)
    ensures
        r@ == trimmed_url(url@) + "/api/cluster/search?filter={\"status\":[\"pending review\"]}"@,
{
    let mut r = trim_trailing_slashes(url);
    r.append("/api/cluster/search?filter={\"status\":[\"pending review\"]}");
    r
}

/// The address of the qualifiers.
pub fn qualifiers_address(url: &str) -> (r: String)
    ensures
        r@ == trimmed_url(url@) + "/api/qualifier"@,
{
    let mut r = trim_trailing_slashes(url);
    r.append("/api/qualifier");
    r
}

/// The address the qualifier updates are sent to.
pub fn qualifier_update_address(url: &str) -> (r: String)
    ensures
        r@ == url@ + "/api/cluster/qualifier"@,
{
    let mut r = url.to_string();
    r.append("/api/cluster/qualifier");
    r
}

/// The clusters to review are usable only when there is at least one.
pub fn check_pending(count: usize) -> (r: Result<(), ErrorKind>)
    ensures
        count == 0 <==> r == Err::<(), ErrorKind>(ErrorKind::Initialize(InitializeErrorReason::EmptyCluster)),
        count > 0 <==> r is Ok,
{
    if count == 0 {
        Err(ErrorKind::Initialize(InitializeErrorReason::EmptyCluster))
    } else {
        Ok(())
    }
}

/// The updates sent for the clusters marked updated (each cluster id with
/// the position of its cluster): its id, and its data source and
/// qualifier as they now are.
pub fn qualifier_updates(updated: &Vec<(String, usize)>, clusters: &Vec<Cluster>) -> (r: Vec<QualifierUpdate>)
    requires
        forall|k: int| 0 <= k < updated@.len() ==> (#[trigger] updated@[k]).1 < clusters@.len(),
    ensures
        r@.len() == updated@.len(),
        forall|k: int| 0 <= k < r@.len() ==> {
            &&& (#[trigger] r@[k]).cluster_id@ == updated@[k].0@
            &&& r@[k].data_source@ == clusters@[updated@[k].1 as int].data_source@
            &&& r@[k].qualifier@ == clusters@[updated@[k].1 as int].qualifier@
        },
{
    let mut r: Vec<QualifierUpdate> = Vec::new();
    let mut k: usize = 0;
    while k < updated.len()
        invariant
            k <= updated@.len(),
            forall|j: int| 0 <= j < updated@.len() ==> (#[trigger] updated@[j]).1 < clusters@.len(),
            r@.len() == k,
            forall|j: int| 0 <= j < r@.len() ==> {
                &&& (#[trigger] r@[j]).cluster_id@ == updated@[j].0@
                &&& r@[j].data_source@ == clusters@[updated@[j].1 as int].data_source@
                &&& r@[j].qualifier@ == clusters@[updated@[j].1 as int].qualifier@
            },
        decreases updated@.len() - k,
    {
        let i = updated[k].1;
        let c = &clusters[i];
        r.push(QualifierUpdate {
            cluster_id: updated[k].0.clone(),
            data_source: c.data_source.clone(),
            qualifier: c.qualifier.clone(),
        });
        k = k + 1;
    }
    r
}

/// How sending the qualifier updates went.
pub enum UpdateSend {
    /// No cluster was updated.
    NothingToSend,
    /// The updates could not be written as JSON.
    NotSerialized,
    /// The request was answered, successfully or not.
    Answered { success: bool },
    /// The request could not be sent.
    NotSent,
}

/// The message after sending the qualifier updates.
pub fn update_message(outcome: UpdateSend) -> (r: &'static str)
    ensures
        r@ == match outcome {
            UpdateSend::NothingToSend => "There are no updated clusters"@,
            UpdateSend::NotSerialized => "Something went wrong"@,
            UpdateSend::Answered { success: true } => "Your changes have been successfully saved."@,
            UpdateSend::Answered { success: false } => "Failed to update the qualifiers for some reason."@,
            UpdateSend::NotSent => "Failed to send the update request to REviewd"@,
        },
{
    match outcome {
        UpdateSend::NothingToSend => "There are no updated clusters",
        UpdateSend::NotSerialized => "Something went wrong",
        UpdateSend::Answered { success: true } => "Your changes have been successfully saved.",
        UpdateSend::Answered { success: false } => "Failed to update the qualifiers for some reason.",
        UpdateSend::NotSent => "Failed to send the update request to REviewd",
    }
}

} // verus!
