//! Routing and replies of the first REview API service.

use vstd::prelude::*;
use crate::filter::{join_or, query_spec, Filter, Schema};
use crate::text::{debug_quote, debug_quoted, decimal, i64_to_string, signed_decimal, u64_to_string, contains_char, contains_str, has_prefix, occurs_at, parse_u64, parse_u64_spec, str_eq, suffix_from};
use crate::web::{
    form_pairs, form_pairs_of, keys_are, keys_of, lookup, lookup_spec, message_body,
    message_body_spec, pairs_view, percent_decode_utf8, percent_decoded, Method,
};

verus! {

/// The service: where the database is, and the addresses it announces
/// benign signatures with.
pub struct ApiService {
    pub docker_host_addr: String,
    pub etcd_url: String,
    pub reviewd_url: String,
}

impl ApiService {
    /// A service for the given database and addresses.
    pub fn new(database_url: &str, docker_host_addr: &str, etcd_url: &str) -> (r: ApiService)
        ensures
            r.docker_host_addr@ == docker_host_addr@,
            r.etcd_url@ == etcd_url@,
            r.reviewd_url@ == database_url@,
    {
        ApiService {
            docker_host_addr: String::from_str(docker_host_addr),
            etcd_url: String::from_str(etcd_url),
            reviewd_url: String::from_str(database_url),
        }
    }
}

/// The columns a cluster search returns.
#[derive(Clone, Copy, Debug, PartialEq, Eq, Structural)]
pub struct SelectCluster {
    pub cluster_id: bool,
    pub detector_id: bool,
    pub qualifier: bool,
    pub status: bool,
    pub category: bool,
    pub signature: bool,
    pub data_source: bool,
    pub size: bool,
    pub examples: bool,
    pub last_modification_time: bool,
}

/// Every column of a cluster.
pub open spec fn select_all() -> SelectCluster {
    SelectCluster {
        cluster_id: true,
        detector_id: true,
        qualifier: true,
        status: true,
        category: true,
        signature: true,
        data_source: true,
        size: true,
        examples: true,
        last_modification_time: true,
    }
}

/// The columns a request selects; absent ones are not selected.
pub struct Select {
    pub cluster_id: Option<bool>,
    pub detector_id: Option<bool>,
    pub qualifier: Option<bool>,
    pub status: Option<bool>,
    pub category: Option<bool>,
    pub signature: Option<bool>,
    pub data_source: Option<bool>,
    pub size: Option<bool>,
    pub examples: Option<bool>,
    pub last_modification_time: Option<bool>,
}

/// A flag that counts as `false` when absent.
pub open spec fn flag(b: Option<bool>) -> bool {
    match b {
        Some(v) => v,
        None => false,
    }
}

fn flag_of(b: Option<bool>) -> (r: bool)
    ensures
        r == flag(b),
{
    match b {
        Some(v) => v,
        None => false,
    }
}

impl Select {
    /// The selected columns: those given as `true`.
    pub fn response_type_builder(&self) -> (r: SelectCluster)
        ensures
            r == (SelectCluster {
                cluster_id: flag(self.cluster_id),
                detector_id: flag(self.detector_id),
                qualifier: flag(self.qualifier),
                status: flag(self.status),
                category: flag(self.category),
                signature: flag(self.signature),
                data_source: flag(self.data_source),
                size: flag(self.size),
                examples: flag(self.examples),
                last_modification_time: flag(self.last_modification_time),
            }),
    {
        SelectCluster {
            cluster_id: flag_of(self.cluster_id),
            detector_id: flag_of(self.detector_id),
            qualifier: flag_of(self.qualifier),
            status: flag_of(self.status),
            category: flag_of(self.category),
            signature: flag_of(self.signature),
            data_source: flag_of(self.data_source),
            size: flag_of(self.size),
            examples: flag_of(self.examples),
            last_modification_time: flag_of(self.last_modification_time),
        }
    }
}

/// What a request asks for.
pub enum Route {
    /// Search clusters; the query pairs decide the rest.
    ClusterSearch(Vec<(String, String)>),
    /// Add a category of this name.
    AddCategory(String),
    /// Set the suspicious tokens under this etcd key to the request body.
    PutSuspiciousTokens(String),
    /// Update the cluster with this id in this data source.
    UpdateCluster(String, String),
    AddClusters,
    AddOutliers,
    UpdateClusters,
    UpdateOutliers,
    GetCategories,
    GetClusters,
    UpdateQualifiers,
    GetOutliers,
    GetQualifiers,
    GetStatuses,
    /// The outliers of this data source.
    GetOutliersOf(String),
    /// Rename this category to the one in the request body.
    UpdateCategory(String),
    BadRequest,
    NotFound,
}

/// The value of the only pair when there is exactly one, named `name`.
pub open spec fn single_param_spec(pairs: Seq<(Seq<char>, Seq<char>)>, name: Seq<char>) -> Option<Seq<char>> {
    if pairs.len() == 1 && pairs[0].0 == name {
        Some(pairs[0].1)
    } else {
        None
    }
}

/// The value of the only pair when there is exactly one, named `name`.
pub fn single_param(pairs: &Vec<(String, String)>, name: &str) -> (r: Option<String>)
    ensures
        match r {
            Some(v) => single_param_spec(pairs_view(pairs@), name@) == Some(v@),
            None => single_param_spec(pairs_view(pairs@), name@) is None,
        },
{
    if pairs.len() == 1 && str_eq(pairs[0].0.as_str(), name) {
        Some(pairs[0].1.clone())
    } else {
        None
    }
}

/// The last segment of a path under `prefix`, decoded, when the rest of
/// the path after `prefix` holds no further `/`.
pub open spec fn segment_spec(path: Seq<char>, prefix: Seq<char>) -> Option<Seq<char>> {
    if prefix.len() <= path.len() && path.take(prefix.len() as int) == prefix && !path.skip(prefix.len() as int).contains('/') {
        percent_decoded(path.skip(prefix.len() as int))
    } else {
        None
    }
}

/// The decoded last segment of a path under `prefix`.
pub fn segment_after(path: &str, prefix: &str) -> (r: Option<String>)
    ensures
        match r {
            Some(s) => segment_spec(path@, prefix@) == Some(s@),
            None => segment_spec(path@, prefix@) is None,
        },
{
    if !has_prefix(path, prefix) {
        return None;
    }
    let rest = suffix_from(path, prefix.unicode_len());
    if contains_char(rest, '/') {
        return None;
    }
    percent_decode_utf8(rest)
}

/// The route of a request with a query string.
pub open spec fn route_with_query_ok(method: Method, path: Seq<char>, query: Seq<char>, r: Route) -> bool {
    let pairs = form_pairs_of(query);
    if method == Method::Get && path == "/api/cluster/search"@ {
        r matches Route::ClusterSearch(p) && pairs_view(p@) == pairs
    } else if method == Method::Post && path == "/api/category"@ {
        match single_param_spec(pairs, "category"@) {
            Some(c) => r matches Route::AddCategory(x) && x@ == c,
            None => r is BadRequest,
        }
    } else if method == Method::Put && path == "/api/etcd/suspicious_tokens"@ {
        match single_param_spec(pairs, "etcd_key"@) {
            Some(k) => r matches Route::PutSuspiciousTokens(x) && x@ == k,
            None => r is BadRequest,
        }
    } else if method == Method::Put {
        match (segment_spec(path, "/api/cluster/"@), single_param_spec(pairs, "data_source"@)) {
            (Some(c), Some(d)) => r matches Route::UpdateCluster(x, y) && x@ == c && y@ == d,
            _ => r is NotFound,
        }
    } else {
        r is NotFound
    }
}

/// The route of a request without a query string.
pub open spec fn route_without_query_ok(method: Method, path: Seq<char>, r: Route) -> bool {
    if method == Method::Post && path == "/api/cluster"@ {
        r is AddClusters
    } else if method == Method::Post && path == "/api/outlier"@ {
        r is AddOutliers
    } else if method == Method::Put && path == "/api/cluster"@ {
        r is UpdateClusters
    } else if method == Method::Put && path == "/api/outlier"@ {
        r is UpdateOutliers
    } else if method == Method::Get && path == "/api/category"@ {
        r is GetCategories
    } else if method == Method::Get && path == "/api/cluster"@ {
        r is GetClusters
    } else if method == Method::Put && path == "/api/cluster/qualifier"@ {
        r is UpdateQualifiers
    } else if method == Method::Get && path == "/api/outlier"@ {
        r is GetOutliers
    } else if method == Method::Get && path == "/api/qualifier"@ {
        r is GetQualifiers
    } else if method == Method::Get && path == "/api/status"@ {
        r is GetStatuses
    } else if method == Method::Get {
        match segment_spec(path, "/api/outlier/"@) {
            Some(d) => r matches Route::GetOutliersOf(x) && x@ == d,
            None => r is NotFound,
        }
    } else if method == Method::Put {
        match segment_spec(path, "/api/category/"@) {
            Some(c) => r matches Route::UpdateCategory(x) && x@ == c,
            None => r is NotFound,
        }
    } else {
        r is NotFound
    }
}

impl ApiService {
    /// What a request asks for, from its method, path and query string.
    pub fn route(method: Method, path: &str, query: Option<&str>) -> (r: Route)
        ensures
            match query {
                Some(q) => route_with_query_ok(method, path@, q@, r),
                None => route_without_query_ok(method, path@, r),
            },
    {
        match query {
            Some(q) => {
                let pairs = form_pairs(q);
                if method == Method::Get && str_eq(path, "/api/cluster/search") {
                    Route::ClusterSearch(pairs)
                } else if method == Method::Post && str_eq(path, "/api/category") {
                    match single_param(&pairs, "category") {
                        Some(c) => Route::AddCategory(c),
                        None => Route::BadRequest,
                    }
                } else if method == Method::Put && str_eq(path, "/api/etcd/suspicious_tokens") {
                    match single_param(&pairs, "etcd_key") {
                        Some(k) => Route::PutSuspiciousTokens(k),
                        None => Route::BadRequest,
                    }
                } else if method == Method::Put {
                    match (segment_after(path, "/api/cluster/"), single_param(&pairs, "data_source")) {
                        (Some(c), Some(d)) => Route::UpdateCluster(c, d),
                        _ => Route::NotFound,
                    }
                } else {
                    Route::NotFound
                }
            },
            None => {
                if method == Method::Post && str_eq(path, "/api/cluster") {
                    Route::AddClusters
                } else if method == Method::Post && str_eq(path, "/api/outlier") {
                    Route::AddOutliers
                } else if method == Method::Put && str_eq(path, "/api/cluster") {
                    Route::UpdateClusters
                } else if method == Method::Put && str_eq(path, "/api/outlier") {
                    Route::UpdateOutliers
                } else if method == Method::Get && str_eq(path, "/api/category") {
                    Route::GetCategories
                } else if method == Method::Get && str_eq(path, "/api/cluster") {
                    Route::GetClusters
                } else if method == Method::Put && str_eq(path, "/api/cluster/qualifier") {
                    Route::UpdateQualifiers
                } else if method == Method::Get && str_eq(path, "/api/outlier") {
                    Route::GetOutliers
                } else if method == Method::Get && str_eq(path, "/api/qualifier") {
                    Route::GetQualifiers
                } else if method == Method::Get && str_eq(path, "/api/status") {
                    Route::GetStatuses
                } else if method == Method::Get {
                    match segment_after(path, "/api/outlier/") {
                        Some(d) => Route::GetOutliersOf(d),
                        None => Route::NotFound,
                    }
                } else if method == Method::Put {
                    match segment_after(path, "/api/category/") {
                        Some(c) => Route::UpdateCategory(c),
                        None => Route::NotFound,
                    }
                } else {
                    Route::NotFound
                }
            },
        }
    }
}

/// What a cluster search does.
pub enum SearchPlan {
    BadRequest,
    NotFound,
    Query { where_clause: Option<String>, limit: Option<i64>, select: SelectCluster },
}

/// The names of a set of query parameters.
pub open spec fn names(a: Seq<char>, b: Option<Seq<char>>, c: Option<Seq<char>>) -> Set<Seq<char>> {
    let s1 = set![a];
    let s2 = match b { Some(x) => s1.insert(x), None => s1 };
    match c { Some(x) => s2.insert(x), None => s2 }
}

/// The plan of a cluster search whose query has these pairs, whose
/// `filter` parameter parsed as `filter` (`None` when absent or invalid)
/// and whose `select` parameter parsed as `select`.
pub open spec fn search_plan_ok(pairs: Seq<(Seq<char>, Seq<char>)>, filter: Option<Filter>, select: Option<Select>, r: SearchPlan) -> bool {
    match filter {
        None => r is BadRequest,
        Some(f) => {
            let w = join_or(query_spec(f, Schema::Clusters));
            let where_ok = |x: Option<String>| if w.len() == 0 { x is None } else { x matches Some(c) && c@ == w };
            let keys = keys_of(pairs);
            let limit = match lookup_spec(pairs, "limit"@) {
                Some(l) => parse_u64_spec(l),
                None => None,
            };
            if keys == set!["filter"@] {
                r matches SearchPlan::Query { where_clause, limit: None, select: sel } && where_ok(where_clause) && sel == select_all()
            } else if keys == set!["filter"@, "limit"@] {
                match limit {
                    Some(l) => r matches SearchPlan::Query { where_clause, limit: Some(x), select: sel } && where_ok(where_clause) && x == l as i64 && sel == select_all(),
                    None => r is NotFound,
                }
            } else if keys == set!["filter"@, "select"@] {
                match select {
                    Some(s) => r matches SearchPlan::Query { where_clause, limit: None, select: sel } && where_ok(where_clause) && sel == s.response_type_builder_spec(),
                    None => r is BadRequest,
                }
            } else if keys == set!["filter"@, "select"@, "limit"@] {
                match (select, limit) {
                    (Some(s), Some(l)) => r matches SearchPlan::Query { where_clause, limit: Some(x), select: sel } && where_ok(where_clause) && x == l as i64 && sel == s.response_type_builder_spec(),
                    _ => r is BadRequest,
                }
            } else {
                r is NotFound
            }
        },
    }
}

impl Select {
    /// The selected columns: those given as `true`.
    pub open spec fn response_type_builder_spec(&self) -> SelectCluster {
        SelectCluster {
            cluster_id: flag(self.cluster_id),
            detector_id: flag(self.detector_id),
            qualifier: flag(self.qualifier),
            status: flag(self.status),
            category: flag(self.category),
            signature: flag(self.signature),
            data_source: flag(self.data_source),
            size: flag(self.size),
            examples: flag(self.examples),
            last_modification_time: flag(self.last_modification_time),
        }
    }
}

fn all_columns() -> (r: SelectCluster)
    ensures
        r == select_all(),
{
    SelectCluster {
        cluster_id: true,
        detector_id: true,
        qualifier: true,
        status: true,
        category: true,
        signature: true,
        data_source: true,
        size: true,
        examples: true,
        last_modification_time: true,
    }
}

impl ApiService {
    /// What a cluster search does: a bad request without a valid filter;
    /// a query of every column with only a filter, or with a filter and a
    /// number as limit (not found when the limit is no number); a query of
    /// the selected columns with a filter and a valid selection (and a
    /// number as limit); a bad request for an invalid selection; not found
    /// for other parameters.
    pub fn cluster_search_plan(pairs: &Vec<(String, String)>, filter: Option<Filter>, select: Option<Select>) -> (r: SearchPlan)
        ensures
            search_plan_ok(pairs_view(pairs@), filter, select, r),
    {
        let f = match filter {
            Some(f) => f,
            None => return SearchPlan::BadRequest,
        };
        let w = f.get_where_clause(Schema::Clusters);
        let where_clause = if w.unicode_len() == 0 { None } else { Some(w) };
        let limit = match lookup(pairs, "limit") {
            Some(l) => parse_u64(l.as_str()),
            None => None,
        };
        let k1: Vec<&str> = vec!["filter"];
        let k2: Vec<&str> = vec!["filter", "limit"];
        let k3: Vec<&str> = vec!["filter", "select"];
        let k4: Vec<&str> = vec!["filter", "select", "limit"];
        proof {
            assert(k1@.map_values(|k: &str| k@) =~= seq!["filter"@]);
            assert(seq!["filter"@].to_set() =~= set!["filter"@]) by {
                assert(seq!["filter"@][0] == "filter"@);
            }
        }
        if keys_are(pairs, &k1) {
            return SearchPlan::Query { where_clause, limit: None, select: all_columns() };
        }
        proof {
            assert(k2@.map_values(|k: &str| k@) =~= seq!["filter"@, "limit"@]);
            assert(seq!["filter"@, "limit"@].to_set() =~= set!["filter"@, "limit"@]) by {
                assert(seq!["filter"@, "limit"@][0] == "filter"@);
                assert(seq!["filter"@, "limit"@][1] == "limit"@);
            }
        }
        if keys_are(pairs, &k2) {
            return match limit {
                Some(l) => SearchPlan::Query { where_clause, limit: Some(#[verifier::truncate] (l as i64)), select: all_columns() },
                None => SearchPlan::NotFound,
            };
        }
        proof {
            assert(k3@.map_values(|k: &str| k@) =~= seq!["filter"@, "select"@]);
            assert(seq!["filter"@, "select"@].to_set() =~= set!["filter"@, "select"@]) by {
                assert(seq!["filter"@, "select"@][0] == "filter"@);
                assert(seq!["filter"@, "select"@][1] == "select"@);
            }
        }
        if keys_are(pairs, &k3) {
            return match select {
                Some(s) => SearchPlan::Query { where_clause, limit: None, select: s.response_type_builder() },
                None => SearchPlan::BadRequest,
            };
        }
        proof {
            assert(k4@.map_values(|k: &str| k@) =~= seq!["filter"@, "select"@, "limit"@]);
            assert(seq!["filter"@, "select"@, "limit"@].to_set() =~= set!["filter"@, "select"@, "limit"@]) by {
                assert(seq!["filter"@, "select"@, "limit"@][0] == "filter"@);
                assert(seq!["filter"@, "select"@, "limit"@][1] == "select"@);
                assert(seq!["filter"@, "select"@, "limit"@][2] == "limit"@);
            }
        }
        if keys_are(pairs, &k4) {
            return match (select, limit) {
                (Some(s), Some(l)) => SearchPlan::Query { where_clause, limit: Some(#[verifier::truncate] (l as i64)), select: s.response_type_builder() },
                _ => SearchPlan::BadRequest,
            };
        }
        SearchPlan::NotFound
    }
}

/// A reply: an HTTP status code and a JSON body.
pub struct Reply {
    pub status: u16,
    pub body: String,
}

/// Why a database request failed, as far as replies tell them apart.
#[derive(Clone, Copy, Debug, PartialEq, Eq, Structural)]
pub enum DbFailure {
    DatabaseLocked,
    RecordNotExist,
    Other,
}

/// The reply with a status and a message.
pub open spec fn reply_spec(r: Reply, status: u16, message: Seq<char>) -> bool {
    r.status == status && r.body@ == message_body_spec(message)
}

impl ApiService {
    /// A reply with a status and a message.
    pub fn build_http_response(status: u16, message: &str) -> (r: Reply)
        ensures
            reply_spec(r, status, message@),
    {
        Reply { status, body: message_body(message) }
    }

    /// The reply to an invalid request.
    pub fn build_http_400_response() -> (r: Reply)
        ensures
            reply_spec(r, 400, "Invalid request"@),
    {
        Self::build_http_response(400, "Invalid request")
    }

    /// The reply to a request for something unknown.
    pub fn build_http_404_response() -> (r: Reply)
        ensures
            reply_spec(r, 404, "Not found"@),
    {
        Self::build_http_response(404, "Not found")
    }

    /// The reply to a request that failed on the server.
    pub fn build_http_500_response() -> (r: Reply)
        ensures
            reply_spec(r, 500, "Internal server error"@),
    {
        Self::build_http_response(500, "Internal server error")
    }

    /// The reply to a request the database failed on: a busy database (by
    /// the root cause's text, or by the reported reason) asks to retry; a
    /// missing record is a bad request; anything else is a server error.
    pub fn db_error_handler(root_cause: Option<&str>, reason: Option<DbFailure>) -> (r: Reply)
        ensures
            match root_cause {
                Some(c) => if exists|i: int| #[trigger] occurs_at(c@, "database is locked"@, i) {
                    reply_spec(r, 503, "Service temporarily unavailable"@)
                } else {
                    reply_spec(r, 500, "Internal server error"@)
                },
                None => match reason {
                    Some(DbFailure::DatabaseLocked) => reply_spec(r, 503, "Service temporarily unavailable"@),
                    Some(DbFailure::RecordNotExist) => reply_spec(r, 400, "The specified record does not exist in database"@),
                    _ => reply_spec(r, 500, "Internal server error"@),
                },
            },
    {
        match root_cause {
            Some(c) => if contains_str(c, "database is locked") {
                Self::build_http_response(503, "Service temporarily unavailable")
            } else {
                Self::build_http_500_response()
            },
            None => match reason {
                Some(DbFailure::DatabaseLocked) => Self::build_http_response(503, "Service temporarily unavailable"),
                Some(DbFailure::RecordNotExist) => Self::build_http_response(400, "The specified record does not exist in database"),
                _ => Self::build_http_500_response(),
            },
        }
    }

    /// The reply to a request that failed before it was handled: a server
    /// error carrying the error's text.
    pub fn error_handler(message: &str) -> (r: Reply)
        ensures
            reply_spec(r, 500, message@),
    {
        Self::build_http_response(500, message)
    }

    /// The text of raw event bytes, one character per byte.
    pub fn bytes_to_string(bytes: &[u8]) -> (r: String)
        ensures
            r@ == bytes@.map_values(|b: u8| crate::text::latin1(b)),
    {
        crate::kafka_consumer::fetch::bytes_to_string(bytes)
    }
}


/// A cluster as the service lists it; absent columns were not selected.
/// `examples` holds the JSON text of the examples, or `None` when they
/// could not be written as JSON.
pub struct ClusterResponse {
    pub cluster_id: Option<String>,
    pub detector_id: Option<i32>,
    pub qualifier: Option<String>,
    pub status: Option<String>,
    pub category: Option<String>,
    pub signature: Option<String>,
    pub data_source: Option<String>,
    pub size: Option<usize>,
    pub examples: Option<Option<String>>,
    pub last_modification_time: Option<String>,
}

/// A member of a JSON object: its text when it comes first, and when it
/// follows another member; nothing when the column is absent.
pub type Piece = Option<(Seq<char>, Seq<char>)>;

/// The object text so far followed by a member.
pub open spec fn step(acc: Seq<char>, p: Piece) -> Seq<char> {
    match p {
        Some((first, rest)) => acc + if acc.len() == 0 { first } else { rest },
        None => acc,
    }
}

/// A member holding a quoted string.
pub open spec fn quoted_piece(name: Seq<char>, v: Option<String>) -> Piece {
    match v {
        Some(x) => named(name, debug_quoted(x@)),
        None => None,
    }
}

/// A member with a name and a value text.
pub open spec fn named(name: Seq<char>, value: Seq<char>) -> Piece {
    Some(("\""@ + name + "\":"@ + value, ",\""@ + name + "\":"@ + value))
}

pub open spec fn cluster_id_piece(c: ClusterResponse) -> Piece {
    match c.cluster_id {
        Some(x) => Some(("\"cluster_id\":"@ + debug_quoted(x@), "\"cluster_id\":"@ + debug_quoted(x@))),
        None => None,
    }
}

pub open spec fn detector_id_piece(c: ClusterResponse) -> Piece {
    match c.detector_id {
        Some(d) => named("detector_id"@, signed_decimal(d as int)),
        None => None,
    }
}

pub open spec fn qualifier_piece(c: ClusterResponse) -> Piece {
    match c.qualifier {
        Some(q) => Some(("\"qualifier\":\""@ + debug_quoted(q@), ",\"qualifier\":"@ + debug_quoted(q@))),
        None => None,
    }
}

pub open spec fn size_piece(c: ClusterResponse) -> Piece {
    match c.size {
        Some(n) => named("size"@, decimal(n as nat)),
        None => None,
    }
}

pub open spec fn examples_piece(c: ClusterResponse) -> Piece {
    match c.examples {
        Some(Some(e)) => named("examples"@, e@),
        Some(None) => Some(("\"examples\":-"@, ",\"examples\":-"@)),
        None => None,
    }
}

pub open spec fn time_piece(c: ClusterResponse) -> Piece {
    match c.last_modification_time {
        Some(t) => named("last_modification_time"@, "\""@ + t@ + "\""@),
        None => None,
    }
}

/// The members of a listed cluster, in order: cluster id, detector id,
/// qualifier, status, category, signature, data source, size, examples and
/// time of the last change, each when present.
pub open spec fn members(c: ClusterResponse) -> Seq<char> {
    let a1 = step(Seq::empty(), cluster_id_piece(c));
    let a2 = step(a1, detector_id_piece(c));
    let a3 = step(a2, qualifier_piece(c));
    let a4 = step(a3, quoted_piece("status"@, c.status));
    let a5 = step(a4, quoted_piece("category"@, c.category));
    let a6 = step(a5, quoted_piece("signature"@, c.signature));
    let a7 = step(a6, quoted_piece("data_source"@, c.data_source));
    let a8 = step(a7, size_piece(c));
    let a9 = step(a8, examples_piece(c));
    step(a9, time_piece(c))
}

/// The JSON text of listed clusters: an array of their objects.
pub open spec fn clusters_json(rows: Seq<ClusterResponse>) -> Seq<char> {
    "["@ + clusters_json_items(rows, rows.len() as int) + "]"@
}

/// The objects of the first `k` listed clusters, each followed by a comma
/// but the last one of the whole list.
pub open spec fn clusters_json_items(rows: Seq<ClusterResponse>, k: int) -> Seq<char>
    decreases k,
{
    if k <= 0 {
        Seq::empty()
    } else {
        clusters_json_items(rows, k - 1) + "{"@ + members(rows[k - 1])
            + if k - 1 == rows.len() - 1 { "}"@ } else { "},"@ }
    }
}

/// The object of a listed cluster: its members in braces.
pub open spec fn object_of(c: ClusterResponse) -> Seq<char> {
    "{"@ + members(c) + "}"@
}

/// Texts joined by commas.
pub open spec fn join_commas(items: Seq<Seq<char>>) -> Seq<char>
    decreases items.len(),
{
    if items.len() == 0 {
        Seq::empty()
    } else if items.len() == 1 {
        items[0]
    } else {
        join_commas(items.drop_last()) + ","@ + items.last()
    }
}

proof fn lemma_items_joined(rows: Seq<ClusterResponse>, k: int)
    requires
        0 <= k <= rows.len(),
    ensures
        clusters_json_items(rows, k) == if k == 0 {
            Seq::empty()
        } else if k < rows.len() {
            join_commas(rows.map_values(|c: ClusterResponse| object_of(c)).take(k)) + ","@
        } else {
            join_commas(rows.map_values(|c: ClusterResponse| object_of(c)).take(k))
        },
    decreases k,
{
    reveal_strlit("},");
    reveal_strlit("}");
    reveal_strlit(",");
    if k > 0 {
        lemma_items_joined(rows, k - 1);
        let objs = rows.map_values(|c: ClusterResponse| object_of(c));
        let t = objs.take(k);
        assert(t.drop_last() =~= objs.take(k - 1));
        assert(t.last() == object_of(rows[k - 1]));
        let m = members(rows[k - 1]);
        if k == 1 {
            assert(objs.take(1) =~= seq![object_of(rows[0])]);
            if k < rows.len() {
                assert(Seq::<char>::empty() + "{"@ + m + "},"@ =~= "{"@ + m + "}"@ + ","@);
            } else {
                assert(Seq::<char>::empty() + "{"@ + m + "}"@ =~= "{"@ + m + "}"@);
            }
        } else {
            let prev = join_commas(objs.take(k - 1));
            if k < rows.len() {
                assert(prev + ","@ + "{"@ + m + "},"@ =~= prev + ","@ + ("{"@ + m + "}"@) + ","@);
            } else {
                assert(prev + ","@ + "{"@ + m + "}"@ =~= prev + ","@ + ("{"@ + m + "}"@));
            }
        }
    }
}

/// The listing of clusters is a bracketed list of one object per cluster,
/// in order, separated by commas: each object holds, in braces, the
/// members of the cluster's present columns.
pub proof fn law_listing_one_object_per_row(rows: Seq<ClusterResponse>)
    ensures
        clusters_json(rows) == "["@ + join_commas(rows.map_values(|c: ClusterResponse| object_of(c))) + "]"@,
{
    lemma_items_joined(rows, rows.len() as int);
    let objs = rows.map_values(|c: ClusterResponse| object_of(c));
    assert(objs.take(rows.len() as int) =~= objs);
}

/// Adds a member to an object text.
fn add_piece(j: &mut String, first: &str, rest: &str)
    ensures
        final(j)@ == step(old(j)@, Some((first@, rest@))),
{
    if j.unicode_len() == 0 {
        j.append(first);
    } else {
        j.append(rest);
    }
}

/// A member with its name and a value text.
fn member(j: &mut String, name: &str, value: &str)
    ensures
        final(j)@ == step(old(j)@, Some(("\""@ + name@ + "\":"@ + value@, ",\""@ + name@ + "\":"@ + value@))),
{
    let mut first = String::from_str("\"");
    first.append(name);
    first.append("\":");
    first.append(value);
    let mut rest = String::from_str(",\"");
    rest.append(name);
    rest.append("\":");
    rest.append(value);
    add_piece(j, first.as_str(), rest.as_str());
}

/// Adds a member holding a quoted string, when present.
fn quoted_member(j: &mut String, name: &str, v: &Option<String>)
    ensures
        final(j)@ == step(old(j)@, quoted_piece(name@, *v)),
{
    if let Some(x) = v {
        let q = debug_quote(x.as_str());
        member(j, name, q.as_str());
    }
}

/// The members of a listed cluster.
fn cluster_members(c: &ClusterResponse) -> (r: String)
    ensures
        r@ == members(*c),
{
    let mut j = String::new();
    if let Some(x) = &c.cluster_id {
        let q = debug_quote(x.as_str());
        let mut first = String::from_str("\"cluster_id\":");
        first.append(q.as_str());
        add_piece(&mut j, first.as_str(), first.as_str());
    }
    let ghost a1 = j@;
    assert(a1 == step(Seq::empty(), cluster_id_piece(*c)));
    if let Some(d) = c.detector_id {
        let t = i64_to_string(d as i64);
        member(&mut j, "detector_id", t.as_str());
    }
    let ghost a2 = j@;
    assert(a2 == step(a1, detector_id_piece(*c)));
    if let Some(q) = &c.qualifier {
        let dq = debug_quote(q.as_str());
        let mut first = String::from_str("\"qualifier\":\"");
        first.append(dq.as_str());
        let mut rest = String::from_str(",\"qualifier\":");
        rest.append(dq.as_str());
        add_piece(&mut j, first.as_str(), rest.as_str());
    }
    let ghost a3 = j@;
    assert(a3 == step(a2, qualifier_piece(*c)));
    quoted_member(&mut j, "status", &c.status);
    quoted_member(&mut j, "category", &c.category);
    quoted_member(&mut j, "signature", &c.signature);
    quoted_member(&mut j, "data_source", &c.data_source);
    let ghost a7 = j@;
    if let Some(n) = c.size {
        let t = u64_to_string(n as u64);
        member(&mut j, "size", t.as_str());
    }
    let ghost a8 = j@;
    assert(a8 == step(a7, size_piece(*c)));
    match &c.examples {
        Some(Some(e)) => member(&mut j, "examples", e.as_str()),
        Some(None) => add_piece(&mut j, "\"examples\":-", ",\"examples\":-"),
        None => {},
    }
    let ghost a9 = j@;
    assert(a9 == step(a8, examples_piece(*c)));
    if let Some(t) = &c.last_modification_time {
        let mut v = String::from_str("\"");
        v.append(t.as_str());
        v.append("\"");
        member(&mut j, "last_modification_time", v.as_str());
    }
    assert(j@ == step(a9, time_piece(*c)));
    j
}

impl ApiService {
    /// The JSON text listing clusters: an array of one object per cluster
    /// with its selected columns.
    pub fn build_cluster_response(data: &Vec<ClusterResponse>) -> (r: String)
        ensures
            r@ == clusters_json(data@),
    {
        let mut json = String::from_str("[");
        let n = data.len();
        let mut k: usize = 0;
        while k < n
            invariant
                n == data@.len(),
                k <= n,
                json@ == "["@ + clusters_json_items(data@, k as int),
            decreases n - k,
        {
            json.append("{");
            let m = cluster_members(&data[k]);
            json.append(m.as_str());
            if k == n - 1 {
                json.append("}");
            } else {
                json.append("},");
            }
            k = k + 1;
            assert(json@ =~= "["@ + clusters_json_items(data@, k as int));
        }
        json.append("]");
        json
    }
}

/// An outlier as the service lists it.
pub struct OutlierEntry {
    pub outlier: String,
    pub data_source: String,
    pub size: usize,
    pub event_ids: Vec<u64>,
}

impl ApiService {
    /// An outlier as listed: its raw event as text, its size (0 when the
    /// stored text is no number) and its event ids (none when the stored
    /// bytes do not decode).
    pub fn process_outlier(raw_event: &[u8], data_source: String, size: &Option<String>, event_ids: &Option<Vec<u8>>) -> (r: OutlierEntry)
        ensures
            r.outlier@ == raw_event@.map_values(|b: u8| crate::text::latin1(b)),
            r.data_source == data_source,
            r.size == match size {
                Some(t) => match crate::text::parse_usize_spec(t@) { Some(n) => n, None => 0 },
                None => 0,
            },
            r.event_ids@ == match event_ids {
                Some(b) => match crate::db::clusters::ids_of_msgpack(b@) { Some(v) => v, None => Seq::empty() },
                None => Seq::empty(),
            },
    {
        let ids = match event_ids {
            Some(b) => match crate::db::clusters::decode_ids(b.as_slice()) {
                Some(v) => v,
                None => Vec::new(),
            },
            None => Vec::new(),
        };
        let n = match size {
            Some(t) => match crate::text::parse_usize(t.as_str()) {
                Some(n) => n,
                None => 0,
            },
            None => 0,
        };
        OutlierEntry { outlier: crate::kafka_consumer::fetch::bytes_to_string(raw_event), data_source, size: n, event_ids: ids }
    }
}

/// A new qualifier for a cluster of a data source.
pub struct NewQualifier {
    pub cluster_id: String,
    pub data_source: String,
    pub qualifier: String,
}

/// The statement that sets the qualifier of one cluster.
pub open spec fn qualifier_statement(d: NewQualifier, timestamp: Seq<char>) -> Seq<char> {
    "UPDATE clusters SET qualifier_id = (SELECT qualifier_id FROM qualifier WHERE qualifier = '"@ + d.qualifier@
        + "'), last_modification_time = '"@ + timestamp + "' WHERE cluster_id = '"@ + d.cluster_id@
        + "' and data_source = '"@ + d.data_source@ + "';"@
}

/// The statements of the first `k` updates, one after another.
pub open spec fn qualifier_statements(u: Seq<NewQualifier>, timestamp: Seq<char>, k: int) -> Seq<char>
    decreases k,
{
    if k <= 0 {
        Seq::empty()
    } else {
        qualifier_statements(u, timestamp, k - 1) + qualifier_statement(u[k - 1], timestamp)
    }
}

/// The data sources of the updates that mark a cluster benign, in order.
pub open spec fn benign_update_sources(u: Seq<NewQualifier>) -> Seq<Seq<char>>
    decreases u.len(),
{
    if u.len() == 0 {
        Seq::empty()
    } else if u.last().qualifier@ == "benign"@ {
        benign_update_sources(u.drop_last()).push(u.last().data_source@)
    } else {
        benign_update_sources(u.drop_last())
    }
}

impl ApiService {
    /// The statements that set the qualifiers of clusters, stamped with the
    /// time of the change.
    pub fn qualifier_update_query(updates: &Vec<NewQualifier>, timestamp: &str) -> (r: String)
        ensures
            r@ == qualifier_statements(updates@, timestamp@, updates@.len() as int),
    {
        let mut q = String::new();
        let mut i: usize = 0;
        while i < updates.len()
            invariant
                i <= updates@.len(),
                q@ == qualifier_statements(updates@, timestamp@, i as int),
            decreases updates@.len() - i,
        {
            let d = &updates[i];
            q.append("UPDATE clusters SET qualifier_id = (SELECT qualifier_id FROM qualifier WHERE qualifier = '");
            q.append(d.qualifier.as_str());
            q.append("'), last_modification_time = '");
            q.append(timestamp);
            q.append("' WHERE cluster_id = '");
            q.append(d.cluster_id.as_str());
            q.append("' and data_source = '");
            q.append(d.data_source.as_str());
            q.append("';");
            i = i + 1;
            assert(q@ =~= qualifier_statements(updates@, timestamp@, i as int));
        }
        q
    }

    /// The data sources of the updates that mark a cluster benign, in
    /// order, once per such update.
    pub fn benign_updates(updates: &Vec<NewQualifier>) -> (r: Vec<String>)
        ensures
            r@.map_values(|s: String| s@) == benign_update_sources(updates@),
    {
        let mut r: Vec<String> = Vec::new();
        let mut i: usize = 0;
        while i < updates.len()
            invariant
                i <= updates@.len(),
                r@.map_values(|s: String| s@) == benign_update_sources(updates@.take(i as int)),
            decreases updates@.len() - i,
        {
            let d = &updates[i];
            let b = str_eq(d.qualifier.as_str(), "benign");
            if b {
                r.push(d.data_source.clone());
            }
            proof {
                let t = updates@.take(i + 1);
                assert(t.drop_last() =~= updates@.take(i as int));
                assert(t.last() == updates@[i as int]);
                assert(r@.map_values(|s: String| s@) =~= benign_update_sources(t));
            }
            i = i + 1;
        }
        assert(updates@.take(i as int) =~= updates@);
        r
    }

    /// The reply to a request whose transaction failed: retry later when
    /// the database is busy, otherwise a server error.
    pub fn busy_or_server_error(reason: Option<DbFailure>) -> (r: Reply)
        ensures
            if reason == Some(DbFailure::DatabaseLocked) {
                reply_spec(r, 503, "Service temporarily unavailable"@)
            } else {
                reply_spec(r, 500, "Internal server error"@)
            },
    {
        match reason {
            Some(DbFailure::DatabaseLocked) => Self::build_http_response(503, "Service temporarily unavailable"),
            _ => Self::build_http_500_response(),
        }
    }
}

/// What follows an update of a cluster.
pub enum UpdateOutcome {
    /// The cluster was updated, and `reply` says so; when it was marked
    /// benign, its data source's benign signatures are announced.
    Updated { announce: bool, reply: Reply },
    Failed(Reply),
}

impl ApiService {
    /// What follows an update of a cluster: the number of rows changed and
    /// whether the cluster was marked benign, or why the database failed
    /// (`None` for a failure that is not a failed transaction).
    pub fn update_cluster_outcome(result: Result<(usize, bool), Option<DbFailure>>) -> (r: UpdateOutcome)
        ensures
            match result {
                Ok((rows, benign)) => if rows != 1 {
                    r matches UpdateOutcome::Failed(rep) && reply_spec(rep, 400, "The specified record does not exist in database"@)
                } else {
                    r matches UpdateOutcome::Updated { announce, reply } && announce == benign && reply.status == 200
                        && reply.body@ == "Cluster has been successfully updated"@
                },
                Err(Some(DbFailure::DatabaseLocked)) => r matches UpdateOutcome::Failed(rep) && reply_spec(rep, 503, "Service temporarily unavailable"@),
                Err(Some(DbFailure::RecordNotExist)) => r matches UpdateOutcome::Failed(rep) && reply_spec(rep, 400, "The specified record does not exist in database"@),
                Err(Some(DbFailure::Other)) => r matches UpdateOutcome::Failed(rep) && reply_spec(rep, 400, "Please make sure that the values in your request are correct"@),
                Err(None) => r matches UpdateOutcome::Failed(rep) && reply_spec(rep, 500, "Internal server error"@),
            },
    {
        match result {
            Ok((rows, benign)) => if rows != 1 {
                UpdateOutcome::Failed(Self::build_http_response(400, "The specified record does not exist in database"))
            } else {
                UpdateOutcome::Updated { announce: benign, reply: Reply { status: 200, body: String::from_str("Cluster has been successfully updated") } }
            },
            Err(Some(DbFailure::DatabaseLocked)) => UpdateOutcome::Failed(Self::build_http_response(503, "Service temporarily unavailable")),
            Err(Some(DbFailure::RecordNotExist)) => UpdateOutcome::Failed(Self::build_http_response(400, "The specified record does not exist in database")),
            Err(Some(DbFailure::Other)) => UpdateOutcome::Failed(Self::build_http_response(400, "Please make sure that the values in your request are correct")),
            Err(None) => UpdateOutcome::Failed(Self::build_http_500_response()),
        }
    }

    /// The body that sets the suspicious tokens under an etcd key to the
    /// bytes of a request.
    pub fn suspicious_tokens_body(key: &str, tokens: &[u8]) -> (r: String)
        ensures
            r@ == crate::etcd::etcd_body(vstd::string::StringSliceAdditionalSpecFns::spec_bytes(key), tokens@),
    {
        crate::etcd::etcd_request_body_bytes(key, tokens)
    }

    /// The reply after the suspicious tokens under an etcd key were posted:
    /// any answer of etcd gives 200 with the message that the key was
    /// updated; a post that failed gives 500 with the error's text.
    pub fn etcd_update_reply(key: &str, posted: Result<(), String>) -> (r: Reply)
        ensures
            match posted {
                Ok(()) => r.status == 200 && r.body@ == key@ + " has been updated."@,
                Err(e) => reply_spec(r, 500, "An error occurs while updating etcd value: "@ + e@),
            },
    {
        match posted {
            Ok(()) => Reply { status: 200, body: Self::updated_message(key) },
            Err(e) => {
                let mut msg = String::from_str("An error occurs while updating etcd value: ");
                msg.append(e.as_str());
                Self::build_http_response(500, msg.as_str())
            },
        }
    }

    /// The message after an etcd key was set.
    pub fn updated_message(key: &str) -> (r: String)
        ensures
            r@ == key@ + " has been updated."@,
    {
        let mut r = String::from_str(key);
        r.append(" has been updated.");
        r
    }
}

} // verus!
