//! Connectors that restore a dump into a live database.

pub mod postgres;
