# review

The verified core of REview, a service for reviewing the clusters and
outliers that event detectors report, written in Verus.

`src/` holds the logic of the service and of its clients, each function
with a contract that Verus proves:

- `filter`, `database::query`: the SQL `WHERE` clauses built from cluster
  filters, and paged queries.
- `api_service`, `daemon`, `web`, `etcd`: request routing, replies, JSON
  bodies and the etcd announcements of benign signatures.
- `database`, `reviewd`, `db`, `examples`: what the servers store for
  clusters, outliers, events, descriptions and time series.
- `kafka_consumer`: the metadata and raw events read from Kafka topics.
- `init`: the check of the address the server listens on.
- `cluster`, `event`, `cli`, `client`, `views`: the decisions of the
  terminal clients.

Where the service calls an outside crate (`url`, `base64`, `rmp-serde`,
`chrono`, `serde_json`) or a part of the standard library that Verus has no
specification for, a small wrapper with a stated contract makes the call.

`tests/` exercises the library on concrete values; `app/` holds the
terminal programs around it (`client`, `events` and `files` modes).
