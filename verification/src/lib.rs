//! Verified core of a serial-telemetry capture pipeline.
//!
//! A device streams fixed-format frames over a serial link: ASCII lines of
//! eight comma-separated hexadecimal tokens, each one a 32-bit word. This
//! crate holds the verified logic of the pipeline: reassembling complete
//! frames out of arbitrary read chunks, decoding frames into typed records,
//! batching records for the producer/consumer hand-off, and the sink's
//! buffering, file-rotation and shutdown-drain protocol. The unverified
//! edges (the serial port itself, the columnar file writer, the process
//! wiring) live outside this crate and exchange plain values with it.

pub mod clock;
pub mod error;
pub mod serial;
pub mod sink;
pub mod types;
pub mod worker;

pub use error::ReceiverError;
pub use serial::{parse_hex_u32, parse_sensor_data, parse_sensor_data_at, Reassembler};
pub use sink::{output_file_name, shutdown, FileWriterWorker, RecordBuffer, SinkState};
pub use types::{CompressionType, DataFormat, SensorData};
pub use worker::{process_frame, Batcher, SerialReaderWorker};
