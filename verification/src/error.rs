//! What can go wrong when a replay is read or written.

use vstd::prelude::*;

verus! {

/// The error of `miniz_oxide`'s inflate functions, carried as it is.
#[verifier::external_type_specification]
#[verifier::external_body]
pub struct ExDecompressError(miniz_oxide::inflate::DecompressError);

/// The error of `base64`'s decoders, carried as it is.
#[verifier::external_type_specification]
#[verifier::external_body]
pub struct ExDecodeError(base64::DecodeError);

/// The error of `String::from_utf8`, carried as it is.
#[verifier::external_type_specification]
#[verifier::external_body]
pub struct ExFromUtf8Error(std::string::FromUtf8Error);

/// The error of `serde_json`, carried as it is.
#[verifier::external_type_specification]
#[verifier::external_body]
pub struct ExJsonError(serde_json::Error);

/// Why a replay could not be read.
#[derive(Debug)]
pub enum ReplayParseError {
    /// The data is no zlib stream.
    ZlibDecompressError(miniz_oxide::inflate::DecompressError),
    /// The text is no base64.
    Base64DecodeError(base64::DecodeError),
    /// No line feed (a byte of value 10) stands between the metadata and the
    /// inputs.
    MetadataSeparatorNotFound,
    /// The metadata is not UTF-8.
    MetadataNotUtf8(std::string::FromUtf8Error),
    /// The metadata is not JSON, or lacks what a replay's metadata must have.
    MetadataDeserializeError(serde_json::Error),
    /// The game version, given here, does not tell how the inputs are timed,
    /// and the caller did not say either.
    UnknownInputParseMode(String),
    /// A number of the input stream names no key.
    MalformedInputData {
        /// Where the event's first number stands among the stream's numbers.
        position: u64,
        /// The frame of the event.
        frame: u64,
        /// The number that should have named a key and a kind.
        kind: u64,
    },
}

/// A `ReplayParseError` without what the outside crates report.
pub enum ParseFailure {
    /// See `ReplayParseError::ZlibDecompressError`.
    ZlibDecompress,
    /// See `ReplayParseError::Base64DecodeError`.
    Base64Decode,
    /// See `ReplayParseError::MetadataSeparatorNotFound`.
    MetadataSeparatorNotFound,
    /// See `ReplayParseError::MetadataNotUtf8`.
    MetadataNotUtf8,
    /// See `ReplayParseError::MetadataDeserializeError`.
    MetadataDeserialize,
    /// See `ReplayParseError::UnknownInputParseMode`.
    UnknownInputParseMode(Seq<char>),
    /// See `ReplayParseError::MalformedInputData`.
    MalformedInputData { position: u64, frame: u64, kind: u64 },
}

impl View for ReplayParseError {
    type V = ParseFailure;

    open spec fn view(&self) -> ParseFailure {
        match *self {
            ReplayParseError::ZlibDecompressError(_) => ParseFailure::ZlibDecompress,
            ReplayParseError::Base64DecodeError(_) => ParseFailure::Base64Decode,
            ReplayParseError::MetadataSeparatorNotFound => ParseFailure::MetadataSeparatorNotFound,
            ReplayParseError::MetadataNotUtf8(_) => ParseFailure::MetadataNotUtf8,
            ReplayParseError::MetadataDeserializeError(_) => ParseFailure::MetadataDeserialize,
            ReplayParseError::UnknownInputParseMode(version) => ParseFailure::UnknownInputParseMode(
                version@,
            ),
            ReplayParseError::MalformedInputData { position, frame, kind } => {
                ParseFailure::MalformedInputData { position, frame, kind }
            },
        }
    }
}

impl From<miniz_oxide::inflate::DecompressError> for ReplayParseError {
    fn from(value: miniz_oxide::inflate::DecompressError) -> (error: Self) {
        ReplayParseError::ZlibDecompressError(value)
    }
}

impl vstd::std_specs::convert::FromSpecImpl<miniz_oxide::inflate::DecompressError> for ReplayParseError {
    open spec fn obeys_from_spec() -> bool {
        true
    }

    open spec fn from_spec(value: miniz_oxide::inflate::DecompressError) -> Self {
        ReplayParseError::ZlibDecompressError(value)
    }
}

impl From<base64::DecodeError> for ReplayParseError {
    fn from(value: base64::DecodeError) -> (error: Self) {
        ReplayParseError::Base64DecodeError(value)
    }
}

impl vstd::std_specs::convert::FromSpecImpl<base64::DecodeError> for ReplayParseError {
    open spec fn obeys_from_spec() -> bool {
        true
    }

    open spec fn from_spec(value: base64::DecodeError) -> Self {
        ReplayParseError::Base64DecodeError(value)
    }
}

impl From<std::string::FromUtf8Error> for ReplayParseError {
    fn from(value: std::string::FromUtf8Error) -> (error: Self) {
        ReplayParseError::MetadataNotUtf8(value)
    }
}

impl vstd::std_specs::convert::FromSpecImpl<std::string::FromUtf8Error> for ReplayParseError {
    open spec fn obeys_from_spec() -> bool {
        true
    }

    open spec fn from_spec(value: std::string::FromUtf8Error) -> Self {
        ReplayParseError::MetadataNotUtf8(value)
    }
}

impl From<serde_json::Error> for ReplayParseError {
    fn from(value: serde_json::Error) -> (error: Self) {
        ReplayParseError::MetadataDeserializeError(value)
    }
}

impl vstd::std_specs::convert::FromSpecImpl<serde_json::Error> for ReplayParseError {
    open spec fn obeys_from_spec() -> bool {
        true
    }

    open spec fn from_spec(value: serde_json::Error) -> Self {
        ReplayParseError::MetadataDeserializeError(value)
    }
}

/// Why a replay could not be written.
#[derive(Debug)]
pub enum ReplaySerializeError {
    /// The game version, given here, does not tell how the inputs are timed,
    /// and the caller did not say either.
    UnknownInputParseMode(String),
    /// The inputs are not in the order of their frames. `sort_inputs` puts
    /// them in order.
    UnsortedInput {
        /// The index of the first input that comes before its predecessor.
        first_unsorted_index: usize,
        /// The frame of the predecessor.
        prev_time: u64,
        /// The frame of the input at `first_unsorted_index`.
        unsorted_time: u64,
    },
    /// The metadata could not be written as JSON.
    MetadataSerializeError(serde_json::Error),
}

/// A `ReplaySerializeError` without what the outside crates report.
pub enum SerializeFailure {
    /// See `ReplaySerializeError::UnknownInputParseMode`.
    UnknownInputParseMode(Seq<char>),
    /// See `ReplaySerializeError::UnsortedInput`.
    UnsortedInput { first_unsorted_index: usize, prev_time: u64, unsorted_time: u64 },
    /// See `ReplaySerializeError::MetadataSerializeError`.
    MetadataSerialize,
}

impl View for ReplaySerializeError {
    type V = SerializeFailure;

    open spec fn view(&self) -> SerializeFailure {
        match *self {
            ReplaySerializeError::UnknownInputParseMode(version) => {
                SerializeFailure::UnknownInputParseMode(version@)
            },
            ReplaySerializeError::UnsortedInput { first_unsorted_index, prev_time, unsorted_time } => {
                SerializeFailure::UnsortedInput { first_unsorted_index, prev_time, unsorted_time }
            },
            ReplaySerializeError::MetadataSerializeError(_) => SerializeFailure::MetadataSerialize,
        }
    }
}

impl From<serde_json::Error> for ReplaySerializeError {
    fn from(value: serde_json::Error) -> (error: Self) {
        ReplaySerializeError::MetadataSerializeError(value)
    }
}

impl vstd::std_specs::convert::FromSpecImpl<serde_json::Error> for ReplaySerializeError {
    open spec fn obeys_from_spec() -> bool {
        true
    }

    open spec fn from_spec(value: serde_json::Error) -> Self {
        ReplaySerializeError::MetadataSerializeError(value)
    }
}

} // verus!
