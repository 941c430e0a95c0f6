//! The largest number of event ids a cluster keeps, as set by requests.

use vstd::prelude::*;
use crate::text::{decimal, parse_usize, parse_usize_spec, u64_to_string};

verus! {

/// The JSON reply that reports the current limit.
pub open spec fn max_event_id_message_spec(n: usize) -> Seq<char> {
    "{\"max_event_id_num\": "@ + decimal(n as nat) + " }"@
}

/// The JSON reply that reports the current limit.
pub fn max_event_id_message(n: usize) -> (r: String)
    ensures
        r@ == max_event_id_message_spec(n),
{
    let mut r = String::from_str("{\"max_event_id_num\": ");
    let t = u64_to_string(n as u64);
    r.append(t.as_str());
    r.append(" }");
    r
}

/// What a request to change the limit does.
#[derive(Clone, Copy, Debug, PartialEq, Eq, Structural)]
pub enum MaxEventIdUpdate {
    /// The request gives no valid number.
    BadRequest,
    /// The limit becomes `value`; when it shrinks, the stored event ids
    /// are cut down to it first.
    Change { value: usize, shrink: bool },
}

/// What a request with `max_event_id_num` parameter `param` does to the
/// limit `current`.
pub open spec fn max_event_id_update_spec(current: usize, param: Option<Seq<char>>) -> MaxEventIdUpdate {
    match param {
        Some(p) => match parse_usize_spec(p) {
            Some(v) => MaxEventIdUpdate::Change { value: v, shrink: current > v },
            None => MaxEventIdUpdate::BadRequest,
        },
        None => MaxEventIdUpdate::BadRequest,
    }
}

/// What a request to change the limit does.
pub fn max_event_id_update(current: usize, param: Option<&str>) -> (r: MaxEventIdUpdate)
    ensures
        r == max_event_id_update_spec(current, match param { Some(p) => Some(p@), None => None }),
{
    match param {
        Some(p) => match parse_usize(p) {
            Some(v) => MaxEventIdUpdate::Change { value: v, shrink: current > v },
            None => MaxEventIdUpdate::BadRequest,
        },
        None => MaxEventIdUpdate::BadRequest,
    }
}

/// The limit after a request: the requested number when valid, else
/// unchanged.
pub open spec fn limit_after(current: usize, u: MaxEventIdUpdate) -> usize {
    match u {
        MaxEventIdUpdate::Change { value, .. } => value,
        MaxEventIdUpdate::BadRequest => current,
    }
}

/// Setting the limit to a number and reading it back gives that number;
/// stored event ids are cut exactly when the limit goes down; a request
/// without a valid number leaves the limit as it was.
pub proof fn law_max_event_id_set_then_get(current: usize, n: usize)
    ensures
        limit_after(current, max_event_id_update_spec(current, Some(decimal(n as nat)))) == n,
        max_event_id_update_spec(current, Some(decimal(n as nat))) matches MaxEventIdUpdate::Change { shrink, .. } && shrink == (n < current),
        limit_after(current, max_event_id_update_spec(current, None)) == current,
{
    crate::text::law_u64_text_round_trip(n as u64);
}

} // verus!
