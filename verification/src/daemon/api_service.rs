//! Request routing and replies of the daemon's HTTP service.

use vstd::prelude::*;
use crate::text::{parse_i32, parse_i32_spec, str_eq};
use crate::web::{form_pairs, form_pairs_of, lookup, lookup_spec, message_body, message_body_spec, Method};

verus! {

/// The daemon's service: it answers from the database at `database_url`.
pub struct ApiService {
    pub database_url: String,
}

/// What a request to the daemon asks for.
pub enum DaemonRoute {
    /// The events with a status.
    EventsByStatus(i32),
    /// The signatures of the events with a qualifier.
    SignaturesByQualifier(i32),
    /// Give an event (the first) a new qualifier, and make it active.
    UpdateQualifier { event_id: i32, qualifier_id: i32 },
    Actions,
    Categories,
    Events,
    Priorities,
    Statuses,
    NotFound,
}

/// A reply of the daemon: a status code, a body, and whether the body is
/// JSON.
pub struct DaemonReply {
    pub status: u16,
    pub json: bool,
    pub body: String,
}

/// The route of a request, from its method, path and query string. With a
/// query string only `/event` is served: a GET by `status_id` (looked at
/// first) or by `qualifier_id`, and a PUT with both `event_id` and
/// `qualifier_id`; a parameter that is not an `i32` is not found. Without
/// one, the tables are served to GET requests (`/qualifier` serves the
/// action table).
pub open spec fn daemon_route_spec(method: Method, path: Seq<char>, query: Option<Seq<char>>) -> DaemonRoute {
    match query {
        Some(q) => {
            let pairs = form_pairs_of(q);
            if method == Method::Get && path == "/event"@ {
                match lookup_spec(pairs, "status_id"@) {
                    Some(s) => match parse_i32_spec(s) {
                        Some(id) => DaemonRoute::EventsByStatus(id),
                        None => DaemonRoute::NotFound,
                    },
                    None => match lookup_spec(pairs, "qualifier_id"@) {
                        Some(s) => match parse_i32_spec(s) {
                            Some(id) => DaemonRoute::SignaturesByQualifier(id),
                            None => DaemonRoute::NotFound,
                        },
                        None => DaemonRoute::NotFound,
                    },
                }
            } else if method == Method::Put && path == "/event"@ {
                match (lookup_spec(pairs, "event_id"@), lookup_spec(pairs, "qualifier_id"@)) {
                    (Some(e), Some(q)) => match (parse_i32_spec(e), parse_i32_spec(q)) {
                        (Some(event_id), Some(qualifier_id)) => DaemonRoute::UpdateQualifier { event_id, qualifier_id },
                        _ => DaemonRoute::NotFound,
                    },
                    _ => DaemonRoute::NotFound,
                }
            } else {
                DaemonRoute::NotFound
            }
        },
        None => {
            if method != Method::Get {
                DaemonRoute::NotFound
            } else if path == "/action"@ || path == "/qualifier"@ {
                DaemonRoute::Actions
            } else if path == "/category"@ {
                DaemonRoute::Categories
            } else if path == "/event"@ {
                DaemonRoute::Events
            } else if path == "/priority"@ {
                DaemonRoute::Priorities
            } else if path == "/status"@ {
                DaemonRoute::Statuses
            } else {
                DaemonRoute::NotFound
            }
        },
    }
}

/// The integer value of a query parameter, when it is there and is one.
fn int_param(pairs: &Vec<(String, String)>, name: &str) -> (r: Option<Option<i32>>)
    ensures
        match lookup_spec(crate::web::pairs_view(pairs@), name@) {
            Some(s) => r == Some(parse_i32_spec(s)),
            None => r is None,
        },
{
    match lookup(pairs, name) {
        Some(s) => Some(parse_i32(s.as_str())),
        None => None,
    }
}

impl ApiService {
    /// The service for a database.
    pub fn new(database_url: &str) -> (r: ApiService)
        ensures
            r.database_url@ == database_url@,
    {
        ApiService { database_url: database_url.to_string() }
    }

    /// What a request asks for.
    pub fn route(method: Method, path: &str, query: Option<&str>) -> (r: DaemonRoute)
        ensures
            r == daemon_route_spec(method, path@, match query {
                Some(q) => Some(q@),
                None => None,
            }),
    {
        match query {
            Some(q) => {
                let pairs = form_pairs(q);
                if method == Method::Get && str_eq(path, "/event") {
                    match int_param(&pairs, "status_id") {
                        Some(Some(id)) => DaemonRoute::EventsByStatus(id),
                        Some(None) => DaemonRoute::NotFound,
                        None => match int_param(&pairs, "qualifier_id") {
                            Some(Some(id)) => DaemonRoute::SignaturesByQualifier(id),
                            _ => DaemonRoute::NotFound,
                        },
                    }
                } else if method == Method::Put && str_eq(path, "/event") {
                    match (int_param(&pairs, "event_id"), int_param(&pairs, "qualifier_id")) {
                        (Some(Some(event_id)), Some(Some(qualifier_id))) => DaemonRoute::UpdateQualifier { event_id, qualifier_id },
                        _ => DaemonRoute::NotFound,
                    }
                } else {
                    DaemonRoute::NotFound
                }
            },
            None => {
                if method != Method::Get {
                    DaemonRoute::NotFound
                } else if str_eq(path, "/action") || str_eq(path, "/qualifier") {
                    DaemonRoute::Actions
                } else if str_eq(path, "/category") {
                    DaemonRoute::Categories
                } else if str_eq(path, "/event") {
                    DaemonRoute::Events
                } else if str_eq(path, "/priority") {
                    DaemonRoute::Priorities
                } else if str_eq(path, "/status") {
                    DaemonRoute::Statuses
                } else {
                    DaemonRoute::NotFound
                }
            },
        }
    }

    /// The reply to a request for something unknown.
    pub fn build_http_404_response() -> (r: DaemonReply)
        ensures
            r.status == 404 && !r.json && r.body@ == "Not Found"@,
    {
        DaemonReply { status: 404, json: false, body: String::from_str("Not Found") }
    }

    /// The reply when a table could not be written out.
    pub fn build_http_500_response() -> (r: DaemonReply)
        ensures
            r.status == 500 && !r.json && r.body@ == "Internal Server Error"@,
    {
        DaemonReply { status: 500, json: false, body: String::from_str("Internal Server Error") }
    }

    /// The reply once an event's qualifier has been changed.
    pub fn updated_response() -> (r: DaemonReply)
        ensures
            r.status == 200 && !r.json && r.body@ == "Database has been updated"@,
    {
        DaemonReply { status: 200, json: false, body: String::from_str("Database has been updated") }
    }

    /// The reply carrying a table written out as JSON.
    pub fn json_response(json: String) -> (r: DaemonReply)
        ensures
            r.status == 200 && r.json && r.body@ == json@,
    {
        DaemonReply { status: 200, json: true, body: json }
    }

    /// The reply to a request whose handling failed: a server error whose
    /// JSON body carries the error's text.
    pub fn error_handler(message: &str) -> (r: DaemonReply)
        ensures
            r.status == 500 && r.json && r.body@ == message_body_spec(message@),
    {
        DaemonReply { status: 500, json: true, body: message_body(message) }
    }
}

/// The index of the first status named `active`, among the first `k`.
pub open spec fn first_active(statuses: Seq<(Option<i32>, Seq<char>)>, k: int) -> Option<int>
    decreases k,
{
    if k <= 0 {
        None
    } else {
        match first_active(statuses, k - 1) {
            Some(i) => Some(i),
            None => if statuses[k - 1].1 == "active"@ { Some(k - 1) } else { None },
        }
    }
}

/// The statuses as plain values.
pub open spec fn statuses_view(statuses: Seq<(Option<i32>, String)>) -> Seq<(Option<i32>, Seq<char>)> {
    statuses.map_values(|s: (Option<i32>, String)| (s.0, s.1@))
}

/// The id of the status an event takes when its qualifier changes: that
/// of the first status named `active`. `None` when there is no such status
/// or it has no id.
pub fn active_status_id(statuses: &Vec<(Option<i32>, String)>) -> (r: Option<i32>)
    ensures
        r == match first_active(statuses_view(statuses@), statuses@.len() as int) {
            Some(i) => statuses@[i].0,
            None => None,
        },
{
    let ghost sv = statuses_view(statuses@);
    let mut i: usize = 0;
    while i < statuses.len()
        invariant
            i <= statuses@.len(),
            sv == statuses_view(statuses@),
            first_active(sv, i as int) is None,
        decreases statuses@.len() - i,
    {
        if str_eq(statuses[i].1.as_str(), "active") {
            proof {
                assert(sv[i as int].1 == statuses@[i as int].1@);
                assert(first_active(sv, i + 1) == Some(i as int));
                lemma_first_active_stays(sv, i + 1, sv.len() as int);
            }
            return statuses[i].0;
        }
        proof {
            assert(sv[i as int].1 == statuses@[i as int].1@);
        }
        i = i + 1;
    }
    None
}

proof fn lemma_first_active_stays(s: Seq<(Option<i32>, Seq<char>)>, a: int, b: int)
    requires
        0 <= a <= b,
        first_active(s, a) is Some,
    ensures
        first_active(s, b) == first_active(s, a),
    decreases b - a,
{
    if a < b {
        lemma_first_active_stays(s, a, b - 1);
    }
}

} // verus!
