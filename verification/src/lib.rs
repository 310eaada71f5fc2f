//! Reading and writing Techmino replays.
//!
//! A replay is a line of JSON metadata, a line feed, and a stream of
//! variable-length quantities that holds the timestamped key events. The
//! stream may be wrapped in zlib compression and in base64 text.

pub mod error;
pub mod event;
pub mod inputs;
pub mod json;
pub mod laws;
pub mod layers;
pub mod metadata;
pub mod mode;
pub mod replay;
pub mod sorting;
pub mod vlq;

pub use error::{ParseFailure, ReplayParseError, ReplaySerializeError, SerializeFailure};
pub use event::{GameInputEvent, InputEventKey, InputEventKind};
pub use inputs::{get_first_unsorted, input_values, parse_input_slice};
pub use metadata::GameReplayMetadata;
pub use mode::InputParseMode;
pub use replay::GameReplayData;
pub use vlq::{_create_vlqs, append_vlqs, extract_vlqs};
