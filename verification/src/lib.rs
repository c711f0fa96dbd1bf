//! Decoder for a self-describing binary telemetry container format: a stream
//! of Key-Length-Value records, 4-byte aligned, as embedded in action-camera
//! video files.
//!
//! The decoder consumes a raw byte buffer that has already been extracted
//! from its media container and returns an ordered tree of records, or a
//! reported failure. It never panics on malformed input: truncated headers,
//! unknown wire types, missing type templates and bad timestamps are all
//! ordinary error values.

pub mod decode;
pub mod errors;
pub mod models;
pub mod tags;
pub mod timestamp;
pub mod types;
pub mod values;
pub mod wire;

pub use decode::parse_frame;
pub use decode::parse_gpmf;
pub use decode::read_tag;
pub use decode::MAX_NESTING_DEPTH;
pub use errors::DecodeError;
pub use models::Model;
pub use tags::Tag;
pub use timestamp::UtcTime;
pub use types::Type;
pub use values::KeyValue;
pub use values::Value;
