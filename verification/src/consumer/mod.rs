//! Typed, bounded inbound message processing and settlement coordination.
//!
//! A delivery is acknowledged, or its partition advanced, only after its outcome is durable:
//! [`process`] takes it to a [`settlement::Resolution`], and [`settlement`] or [`partitioned`]
//! decides from that alone.

pub mod construction;
pub mod coordinate;
pub mod error;
pub mod partition_laws;
pub mod partitioned;
pub mod process;
pub mod process_laws;
pub mod process_outcomes;
pub mod receive;
pub mod settings;
pub mod settlement;
pub mod telemetry;
pub mod worker;

pub use self::construction::{Consumer, ConsumerParts};
pub use self::error::{
    ConsumerConfigError, ConsumerError, ConsumerErrorKind, ConsumerExit, ErrorSource,
    OperatorReason, SettingsField,
};
pub use self::settings::{ConsumerSettings, SettlementMode};
