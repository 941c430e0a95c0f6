//! The events the review client shows from the central SQLite database:
//! their properties, the qualifiers given to them, and the statements that
//! save the changes.

use vstd::prelude::*;
use std::collections::HashMap;
use crate::text::{i64_to_string, signed_decimal, spec_to_lowercase, str_eq, to_lowercase};

verus! {

broadcast use vstd::std_specs::hash::group_hash_axioms;

/// An event as the client shows it.
pub struct Event {
    pub event_id: i64,
    pub description: Option<String>,
    pub cluster_id: Option<String>,
    pub rules: Option<String>,
    pub category_id: i64,
    pub detector_id: i64,
    pub examples: Option<String>,
    pub priority_id: i64,
    pub qualifier_id: i64,
    pub status_id: i64,
    pub signature: String,
    pub is_updated: bool,
}

/// An optional text, or `-` when absent.
pub open spec fn or_dash(v: Option<String>) -> Seq<char> {
    match v {
        Some(s) => s@,
        None => "-"@,
    }
}

/// The properties text of an event, with the names of its priority,
/// qualifier and category.
pub open spec fn event_properties_spec(e: Event, priority: Seq<char>, qualifier: Seq<char>, category: Seq<char>) -> Seq<char> {
    "event_id: "@ + signed_decimal(e.event_id as int) + "\ncluster_id: "@ + or_dash(e.cluster_id) + "\nrules: "@
        + or_dash(e.rules) + "\ndescription: "@ + or_dash(e.description) + "\ncategory_id: "@ + category
        + "\ndetector_id: "@ + signed_decimal(e.detector_id as int) + "\nexamples: "@ + or_dash(e.examples)
        + "\npriority_id: "@ + priority + "\nqualifier_id: "@ + qualifier + "\nsignature: "@ + e.signature@
        + "\n\n"@
}

fn append_or_dash(r: &mut String, v: &Option<String>)
    ensures
        final(r)@ == old(r)@ + or_dash(*v),
{
    match v {
        Some(s) => r.append(s.as_str()),
        None => r.append("-"),
    }
}

/// The name a table gives an id.
fn table_name(table: &HashMap<i64, String>, id: i64) -> (r: &String)
    requires
        table@.contains_key(id),
    ensures
        *r == table@[id],
{
    match table.get(&id) {
        Some(v) => v,
        None => {
            assert(false);
            table.get(&id).unwrap()
        },
    }
}

/// The statement that reads the events with a status.
pub open spec fn events_query_spec(status_review: i64) -> Seq<char> {
    "select * from events where status_id = "@ + signed_decimal(status_review as int) + ";"@
}

/// The statement that saves the new qualifier of an event and makes it
/// active.
pub open spec fn activation_spec(active_status: i64, qualifier_id: i64, event_id: i64) -> Seq<char> {
    "update events set status_id = "@ + signed_decimal(active_status as int) + ", qualifier_id = "@
        + signed_decimal(qualifier_id as int) + " where event_id = "@ + signed_decimal(event_id as int) + ";"@
}

/// The statement that queues an updated event for the eventor process.
pub open spec fn ready_spec(action_id: i64, event_id: i64, detector_id: i64) -> Seq<char> {
    "insert into ready_table (action_id, event_id, detector_id) Values("@ + signed_decimal(action_id as int) + ", "@
        + signed_decimal(event_id as int) + ", "@ + signed_decimal(detector_id as int) + ");"@
}

impl Event {
    /// The properties text of the event; its priority, qualifier and
    /// category are named by the tables.
    pub fn get_event_properties(
        &self,
        priority: &HashMap<i64, String>,
        qualifier: &HashMap<i64, String>,
        category: &HashMap<i64, String>,
    ) -> (r: String)
        requires
            priority@.contains_key(self.priority_id),
            qualifier@.contains_key(self.qualifier_id),
            category@.contains_key(self.category_id),
        ensures
            r@ == event_properties_spec(
                *self,
                priority@[self.priority_id]@,
                qualifier@[self.qualifier_id]@,
                category@[self.category_id]@,
            ),
    {
        let mut r = String::from_str("event_id: ");
        r.append(i64_to_string(self.event_id).as_str());
        r.append("\ncluster_id: ");
        append_or_dash(&mut r, &self.cluster_id);
        r.append("\nrules: ");
        append_or_dash(&mut r, &self.rules);
        r.append("\ndescription: ");
        append_or_dash(&mut r, &self.description);
        r.append("\ncategory_id: ");
        r.append(table_name(category, self.category_id).as_str());
        r.append("\ndetector_id: ");
        r.append(i64_to_string(self.detector_id).as_str());
        r.append("\nexamples: ");
        append_or_dash(&mut r, &self.examples);
        r.append("\npriority_id: ");
        r.append(table_name(priority, self.priority_id).as_str());
        r.append("\nqualifier_id: ");
        r.append(table_name(qualifier, self.qualifier_id).as_str());
        r.append("\nsignature: ");
        r.append(self.signature.as_str());
        r.append("\n\n");
        r
    }

    /// Gives the event a qualifier; a different one marks it updated.
    pub fn save_qualifier(&mut self, qualifier_id: i64)
        ensures
            *final(self) == (Event {
                qualifier_id,
                is_updated: old(self).is_updated || old(self).qualifier_id != qualifier_id,
                ..*old(self)
            }),
    {
        if self.qualifier_id != qualifier_id {
            self.qualifier_id = qualifier_id;
            self.is_updated = true;
        }
    }

    /// The statement that reads the events with the given status.
    pub fn events_query(status_review: i64) -> (r: String)
        ensures
            r@ == events_query_spec(status_review),
    {
        let mut r = String::from_str("select * from events where status_id = ");
        r.append(i64_to_string(status_review).as_str());
        r.append(";");
        r
    }

    /// The statement that saves the event's qualifier and makes it active.
    pub fn activation_statement(&self, active_status: i64) -> (r: String)
        ensures
            r@ == activation_spec(active_status, self.qualifier_id, self.event_id),
    {
        let mut r = String::from_str("update events set status_id = ");
        r.append(i64_to_string(active_status).as_str());
        r.append(", qualifier_id = ");
        r.append(i64_to_string(self.qualifier_id).as_str());
        r.append(" where event_id = ");
        r.append(i64_to_string(self.event_id).as_str());
        r.append(";");
        r
    }

    /// The statement that queues the event for the eventor process.
    pub fn ready_statement(&self, action_id: i64) -> (r: String)
        ensures
            r@ == ready_spec(action_id, self.event_id, self.detector_id),
    {
        let mut r = String::from_str("insert into ready_table (action_id, event_id, detector_id) Values(");
        r.append(i64_to_string(action_id).as_str());
        r.append(", ");
        r.append(i64_to_string(self.event_id).as_str());
        r.append(", ");
        r.append(i64_to_string(self.detector_id).as_str());
        r.append(");");
        r
    }

    /// The label text of the event in the list: its rules, or `-`.
    pub fn list_name(&self) -> (r: String)
        ensures
            r@ == or_dash(self.rules),
    {
        let mut r = String::new();
        append_or_dash(&mut r, &self.rules);
        r
    }
}

/// The statement that reads a whole table.
pub fn table_query(table: &str) -> (r: String)
    ensures
        r@ == "select * from "@ + table@ + ";"@,
{
    let mut r = String::from_str("select * from ");
    r.append(table);
    r.append(";");
    r
}

/// What a column of a name table holds: the id (the column named after
/// the table with `_id`), the name (the column named after the table), or
/// nothing read; names are compared in lowercase.
pub open spec fn table_column_spec(column: Seq<char>, table: Seq<char>) -> Option<bool> {
    if spec_to_lowercase(column) == spec_to_lowercase(table + "_id"@) {
        Some(true)
    } else if spec_to_lowercase(column) == spec_to_lowercase(table) {
        Some(false)
    } else {
        None
    }
}

/// Whether a column of a name table holds the ids (`Some(true)`), the
/// names (`Some(false)`), or neither.
pub fn table_column(column: &str, table: &str) -> (r: Option<bool>)
    ensures
        r == table_column_spec(column@, table@),
{
    let c = to_lowercase(column);
    let mut id_name = table.to_string();
    id_name.append("_id");
    let id_lower = to_lowercase(id_name.as_str());
    let t = to_lowercase(table);
    if str_eq(c.as_str(), id_lower.as_str()) {
        Some(true)
    } else if str_eq(c.as_str(), t.as_str()) {
        Some(false)
    } else {
        None
    }
}

/// A field of an event, by the name of its column.
#[derive(Clone, Copy, Debug, PartialEq, Eq, Structural)]
pub enum EventField {
    EventId,
    ClusterId,
    Rules,
    Description,
    CategoryId,
    DetectorId,
    Examples,
    PriorityId,
    QualifierId,
    StatusId,
    Signature,
}

/// The field of an event a column holds, by its name in lowercase.
pub open spec fn event_field_spec(column: Seq<char>) -> Option<EventField> {
    let c = spec_to_lowercase(column);
    if c == "event_id"@ {
        Some(EventField::EventId)
    } else if c == "cluster_id"@ {
        Some(EventField::ClusterId)
    } else if c == "rules"@ {
        Some(EventField::Rules)
    } else if c == "description"@ {
        Some(EventField::Description)
    } else if c == "category_id"@ {
        Some(EventField::CategoryId)
    } else if c == "detector_id"@ {
        Some(EventField::DetectorId)
    } else if c == "examples"@ {
        Some(EventField::Examples)
    } else if c == "priority_id"@ {
        Some(EventField::PriorityId)
    } else if c == "qualifier_id"@ {
        Some(EventField::QualifierId)
    } else if c == "status_id"@ {
        Some(EventField::StatusId)
    } else if c == "signature"@ {
        Some(EventField::Signature)
    } else {
        None
    }
}

/// The field of an event a column holds.
pub fn event_field(column: &str) -> (r: Option<EventField>)
    ensures
        r == event_field_spec(column@),
{
    let c = to_lowercase(column);
    let c = c.as_str();
    if str_eq(c, "event_id") {
        Some(EventField::EventId)
    } else if str_eq(c, "cluster_id") {
        Some(EventField::ClusterId)
    } else if str_eq(c, "rules") {
        Some(EventField::Rules)
    } else if str_eq(c, "description") {
        Some(EventField::Description)
    } else if str_eq(c, "category_id") {
        Some(EventField::CategoryId)
    } else if str_eq(c, "detector_id") {
        Some(EventField::DetectorId)
    } else if str_eq(c, "examples") {
        Some(EventField::Examples)
    } else if str_eq(c, "priority_id") {
        Some(EventField::PriorityId)
    } else if str_eq(c, "qualifier_id") {
        Some(EventField::QualifierId)
    } else if str_eq(c, "status_id") {
        Some(EventField::StatusId)
    } else if str_eq(c, "signature") {
        Some(EventField::Signature)
    } else {
        None
    }
}

/// The message after saving: whether any event had changed.
pub fn save_message(events: &Vec<Event>) -> (r: &'static str)
    ensures
        (exists|i: int| 0 <= i < events@.len() && #[trigger] events@[i].is_updated) ==> r@ == "Saved!"@,
        !(exists|i: int| 0 <= i < events@.len() && #[trigger] events@[i].is_updated) ==> r@ == "Nothing to save!"@,
{
    let mut i: usize = 0;
    while i < events.len()
        invariant
            i <= events@.len(),
            forall|j: int| 0 <= j < i ==> !(#[trigger] events@[j]).is_updated,
        decreases events@.len() - i,
    {
        if events[i].is_updated {
            return "Saved!";
        }
        i = i + 1;
    }
    "Nothing to save!"
}

/// The qualifiers to choose from, in the order of their ids 1, 2, ...:
/// each name with its id.
pub fn qualifier_choices(qualifier: &HashMap<i64, String>) -> (r: Vec<(String, i64)>)
    requires
        qualifier@.len() < i64::MAX,
        forall|i: i64| 1 <= i <= qualifier@.len() ==> #[trigger] qualifier@.contains_key(i),
    ensures
        r@.len() == qualifier@.len(),
        forall|k: int| 0 <= k < r@.len() ==> (#[trigger] r@[k]).1 == k + 1 && r@[k].0@ == qualifier@[(k + 1) as i64]@,
{
    let n = qualifier.len();
    let mut r: Vec<(String, i64)> = Vec::new();
    let mut i: usize = 0;
    while i < n
        invariant
            n == qualifier@.len(),
            n < i64::MAX,
            forall|j: i64| 1 <= j <= qualifier@.len() ==> #[trigger] qualifier@.contains_key(j),
            i <= n,
            r@.len() == i,
            forall|k: int| 0 <= k < r@.len() ==> (#[trigger] r@[k]).1 == k + 1 && r@[k].0@ == qualifier@[(k + 1) as i64]@,
        decreases n - i,
    {
        let id = (i + 1) as i64;
        assert(qualifier@.contains_key(id));
        let name = table_name(qualifier, id).clone();
        r.push((name, id));
        i = i + 1;
    }
    r
}

/// The options the eventor process is started with.
pub fn eventor_options(central_dbname: &str, rcvg_dbname: &str) -> (r: (String, String))
    ensures
        r.0@ == "--central_db "@ + central_dbname@,
        r.1@ == "--rcvg_db "@ + rcvg_dbname@,
{
    let mut a = String::from_str("--central_db ");
    a.append(central_dbname);
    let mut b = String::from_str("--rcvg_db ");
    b.append(rcvg_dbname);
    (a, b)
}

} // verus!
