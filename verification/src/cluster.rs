//! The clusters the review client shows from the JSON files of a
//! directory: their properties, the qualifiers given to them and the
//! signatures of the benign ones.

use vstd::prelude::*;
use crate::text::{decimal, str_eq, u64_to_string};
use crate::views::{qualifier_name, qualifier_name_spec};

verus! {

/// A cluster as the client shows it.
pub struct Cluster {
    pub name: String,
    pub signature: String,
    pub size: usize,
    pub suspicious: String,
    pub examples: Vec<String>,
}

/// The text `format!("{:#?}", v)` gives for a list of texts.
pub uninterp spec fn pretty_texts(v: Seq<Seq<char>>) -> Seq<char>;

/// The text `format!("{:#?}", v)` gives for a list of ids.
pub uninterp spec fn pretty_ids(v: Seq<u64>) -> Seq<char>;

/// Calls `format!("{:#?}", v)` on a list of texts; the result is named
/// `pretty_texts` of them.
#[verifier::external_body]
pub(crate) fn pretty_text_list(v: &Vec<String>) -> (r: String)
    ensures
        r@ == pretty_texts(v@.map_values(|s: String| s@)),
{
    format!("{:#?}", v)
}

/// Calls `format!("{:#?}", v)` on a list of ids; the result is named
/// `pretty_ids` of them.
#[verifier::external_body]
pub(crate) fn pretty_id_list(v: &Vec<u64>) -> (r: String)
    ensures
        r@ == pretty_ids(v@),
{
    format!("{:#?}", v)
}

/// The most ids the properties of a cluster show.
pub const SHOWN_IDS: usize = 10;

/// The signatures of the clusters marked benign, one per line.
pub open spec fn benign_rules_spec(clusters: Seq<Cluster>, k: int) -> Seq<char>
    decreases k,
{
    if k <= 0 {
        Seq::empty()
    } else {
        benign_rules_spec(clusters, k - 1) + if clusters[k - 1].suspicious@ == "Benign"@ {
            clusters[k - 1].signature@ + "\n"@
        } else {
            Seq::empty()
        }
    }
}

/// The properties text of a cluster, with the ids known for it (the first
/// `SHOWN_IDS` of them) or a note that there are none.
pub open spec fn properties_spec(c: Cluster, ids: Option<Seq<u64>>) -> Seq<char> {
    "cluster name: "@ + c.name@ + "\nsignature: "@ + c.signature@ + "\nqualifier: "@ + c.suspicious@ + "\nsize: "@
        + decimal(c.size as nat) + "\nexamples: "@ + pretty_texts(c.examples@.map_values(|s: String| s@))
        + match ids {
            Some(v) => "\nIDs: "@ + pretty_ids(if v.len() >= SHOWN_IDS { v.take(SHOWN_IDS as int) } else { v }) + "\n\n"@,
            None => "\nIDs: No information\n\n"@,
        }
}

impl Cluster {
    /// The text written to the benign rules file: the signature of every
    /// cluster qualified as benign, each followed by a newline.
    pub fn benign_rules(clusters: &Vec<Cluster>) -> (r: String)
        ensures
            r@ == benign_rules_spec(clusters@, clusters@.len() as int),
    {
        let mut buff = String::new();
        let mut i: usize = 0;
        while i < clusters.len()
            invariant
                i <= clusters@.len(),
                buff@ == benign_rules_spec(clusters@, i as int),
            decreases clusters@.len() - i,
        {
            if str_eq(clusters[i].suspicious.as_str(), "Benign") {
                buff.append(clusters[i].signature.as_str());
                buff.append("\n");
            }
            i = i + 1;
        }
        buff
    }

    /// The ids the properties show: the first `SHOWN_IDS` of them.
    pub fn shown_ids(ids: &Vec<u64>) -> (r: Vec<u64>)
        ensures
            r@ == if ids@.len() >= SHOWN_IDS { ids@.take(SHOWN_IDS as int) } else { ids@ },
    {
        let n = if ids.len() >= SHOWN_IDS { SHOWN_IDS } else { ids.len() };
        let mut r: Vec<u64> = Vec::new();
        let mut i: usize = 0;
        while i < n
            invariant
                i <= n,
                n <= ids@.len(),
                r@ == ids@.take(i as int),
            decreases n - i,
        {
            r.push(ids[i]);
            i = i + 1;
            assert(r@ =~= ids@.take(i as int));
        }
        assert(n == ids@.len() ==> ids@.take(n as int) =~= ids@);
        r
    }

    /// The properties text of a cluster, given the ids known for it.
    pub fn get_cluster_properties(cluster: &Cluster, ids: Option<&Vec<u64>>) -> (r: String)
        ensures
            r@ == properties_spec(*cluster, match ids { Some(v) => Some(v@), None => None }),
    {
        let mut r = String::from_str("cluster name: ");
        r.append(cluster.name.as_str());
        r.append("\nsignature: ");
        r.append(cluster.signature.as_str());
        r.append("\nqualifier: ");
        r.append(cluster.suspicious.as_str());
        r.append("\nsize: ");
        let size = u64_to_string(cluster.size as u64);
        r.append(size.as_str());
        r.append("\nexamples: ");
        let examples = pretty_text_list(&cluster.examples);
        r.append(examples.as_str());
        match ids {
            Some(v) => {
                let shown = Self::shown_ids(v);
                let text = pretty_id_list(&shown);
                r.append("\nIDs: ");
                r.append(text.as_str());
                r.append("\n\n");
            },
            None => {
                r.append("\nIDs: No information\n\n");
            },
        }
        r
    }

    /// Gives the cluster the qualifier a choice stands for.
    pub fn save_qualifier(&mut self, code: i64)
        ensures
            final(self).suspicious@ == qualifier_name_spec(code),
            final(self).name == old(self).name,
            final(self).signature == old(self).signature,
            final(self).size == old(self).size,
            final(self).examples == old(self).examples,
    {
        let q = qualifier_name(code);
        if !str_eq(self.suspicious.as_str(), q) {
            self.suspicious = q.to_string();
        }
    }
}

} // verus!
