//! A telemetry reconstruction and compaction pipeline.
//!
//! Batches of structured log lines, each wrapping a captured trace export
//! request, are normalized ([`record`]), decoded ([`codec`]), merged into
//! compacted payloads ([`compact`]), and prepared for signed delivery to a
//! set of collectors ([`dispatch`]) resolved through a cached registry
//! ([`registry`]). The [`pipeline`] module ties the per-record steps
//! together for a whole batch.

pub mod codec;
pub mod compact;
pub mod dispatch;
pub mod errors;
pub mod pipeline;
pub mod record;
pub mod registry;

pub use errors::ForwardError;
