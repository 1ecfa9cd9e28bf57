//! Ingest pipeline for signed coverage reports: report verification, event
//! identity digests, durable segment sinks with rotation, an upload shipper
//! with bounded retry, and the fail-fast coordination of the tasks that run
//! them.

pub mod gate;
pub mod bytes;
pub mod event_id;
pub mod segment;
pub mod sink;
pub mod naming;
pub mod shipper;
pub mod orchestrator;
pub mod report;
