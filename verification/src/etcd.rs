//! The etcd entries that tell sensors where to fetch the signatures of
//! benign clusters of a data source.

use vstd::prelude::*;
use vstd::string::StringSliceAdditionalSpecFns;

verus! {

/// The text `base64::encode` gives for some bytes (standard alphabet, with
/// padding).
pub uninterp spec fn base64_of(bytes: Seq<u8>) -> Seq<char>;

/// Calls `base64::encode` on the UTF-8 bytes of a text; the result is named
/// `base64_of` of those bytes.
#[verifier::external_body]
fn base64_encode(s: &str) -> (r: String)
    ensures
        r@ == base64_of(s.spec_bytes()),
{
    base64::encode(s)
}

/// The etcd key under which the benign signatures of a data source are
/// announced.
pub open spec fn benign_key(data_source: Seq<char>) -> Seq<char> {
    "benign_signatures_"@ + data_source
}

/// The URL that lists the benign clusters of a data source.
pub open spec fn benign_url(docker_host_addr: Seq<char>, data_source: Seq<char>) -> Seq<char> {
    "http://"@ + docker_host_addr + "/api/cluster/search?filter={\"qualifier\": [\"benign\"], \"data_source\":[\""@
        + data_source + "\"]}"@
}

/// The body of an etcd `put` request: the key and the value, both in base64.
pub open spec fn etcd_body(key: Seq<u8>, value: Seq<u8>) -> Seq<char> {
    "{\"key\": \""@ + base64_of(key) + "\", \"value\": \""@ + base64_of(value) + "\"}"@
}

/// The etcd key for the benign signatures of a data source.
pub fn benign_signatures_key(data_source: &str) -> (r: String)
    ensures
        r@ == benign_key(data_source@),
{
    let mut r = String::from_str("benign_signatures_");
    r.append(data_source);
    r
}

/// The etcd value for the benign signatures of a data source: the URL of
/// its benign clusters.
pub fn benign_signatures_url(docker_host_addr: &str, data_source: &str) -> (r: String)
    ensures
        r@ == benign_url(docker_host_addr@, data_source@),
{
    let mut r = String::from_str("http://");
    r.append(docker_host_addr);
    r.append("/api/cluster/search?filter={\"qualifier\": [\"benign\"], \"data_source\":[\"");
    r.append(data_source);
    r.append("\"]}");
    r
}

/// The body of the request that sets `key` to `value` in etcd.
pub fn etcd_request_body(key: &str, value: &str) -> (r: String)
    ensures
        r@ == etcd_body(key.spec_bytes(), value.spec_bytes()),
{
    let k = base64_encode(key);
    let v = base64_encode(value);
    let mut r = String::from_str("{\"key\": \"");
    r.append(k.as_str());
    r.append("\", \"value\": \"");
    r.append(v.as_str());
    r.append("\"}");
    r
}

/// Calls `base64::encode` on bytes; the result is named `base64_of` of them.
#[verifier::external_body]
fn base64_encode_bytes(b: &[u8]) -> (r: String)
    ensures
        r@ == base64_of(b@),
{
    base64::encode(b)
}

/// The body of the request that sets `key` to the bytes `value` in etcd.
pub fn etcd_request_body_bytes(key: &str, value: &[u8]) -> (r: String)
    ensures
        r@ == etcd_body(key.spec_bytes(), value@),
{
    let k = base64_encode(key);
    let v = base64_encode_bytes(value);
    let mut r = String::from_str("{\"key\": \"");
    r.append(k.as_str());
    r.append("\", \"value\": \"");
    r.append(v.as_str());
    r.append("\"}");
    r
}

} // verus!
