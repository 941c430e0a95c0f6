//! The request logic of the reviewd HTTP service that stores clusters,
//! outliers, events and their descriptions.

pub mod cluster;
pub mod description;
pub mod event;
pub mod event_id;
pub mod experiment;
pub mod indicator;
pub mod outlier;
pub mod query;
pub mod raw_event;
