//! The first REview API service: routes requests on clusters, outliers,
//! categories and etcd entries to the database, and builds the replies.

pub mod error;
pub mod service;
