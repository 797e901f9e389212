//! Durable message consumption: the decisions of a bounded consumer, its transactional inbox, and
//! an Apache Iggy publisher and delivery source.
//!
//! Nothing here performs I/O. Each operation that needs a broker or a database is a state machine:
//! it names the next operation, and takes the outcome back as an argument.
//!
//! - [`envelope`], [`headers`], [`failure`], [`delivery`]: what messages, failures, and sources
//!   are.
//! - [`inbox`]: receipts, their failure reduction, and maintenance.
//! - [`consumer`]: settings, the per-delivery workflow, settlement, and partition coordination.
//! - [`provider`]: the Iggy envelope mapping, publication, and consumer-group source.

pub mod consumer;
pub mod delivery;
pub mod duration;
pub mod envelope;
pub mod failure;
pub mod headers;
pub mod ids;
pub mod inbox;
pub mod nonzero;
pub mod provider;
pub mod text;
