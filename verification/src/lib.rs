//! A tenant-scoped query engine over the objects of a two-dimensional world,
//! and the pipeline that keeps a consumer's view of that world in step with it.

pub mod api;
pub mod decimal;
pub mod error;
pub mod map;
pub mod poller;
pub mod query;
pub mod reconciler;
pub mod record;
pub mod relay;
pub mod schema;
