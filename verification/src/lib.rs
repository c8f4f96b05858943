//! Wire protocol and session tracking for home sensor telemetry.
//!
//! Field devices announce themselves once over a control connection with a
//! text frame of metadata, then stream fixed-size binary frames of readings.
//! This crate holds the two framings, the registry that remembers which
//! address announced what, and the decisions that the ingestion server and
//! the device take between their network and storage operations.

pub mod buffer;
pub mod client;
pub mod error;
pub mod frame;
pub mod metadata;
pub mod registry;
pub mod sendable;
pub mod server;
pub mod text;

pub use buffer::{write_into_buffer, BUFFER_SIZE};
pub use client::{ClientAction, Connection, ConnectionState, TransportFatalError};
pub use error::{ConfigError, ConverterError};
pub use frame::NetworkPacket;
pub use metadata::InitializationPacket;
pub use registry::{IpAddress, Registry};
pub use sendable::Sendable;
pub use server::{DatagramOutcome, IngestPlan, ReadStep, StorageWrite};
