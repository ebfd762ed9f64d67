//! A verified event-aggregation engine: events carrying key/value attributes
//! are fanned out, per tenant configuration, across time windows and attribute
//! groupings into pre-aggregated rollup buckets held in a keyed document store.
pub mod bucket;
pub mod config;
pub mod dispatch;
pub mod grouping;
pub mod models;
pub mod queries;
pub mod store;
pub mod text;
pub mod window;
