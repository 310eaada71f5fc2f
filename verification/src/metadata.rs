//! The metadata of a replay: a JSON document, of which the codec reads the
//! version of the game.

use crate::error::{ParseFailure, ReplayParseError};
use crate::json::{
    json_member, json_string, json_value, member_of, missing_field, null_document, parse_json,
    string_of,
};
use vstd::prelude::*;
use vstd::utf8::{decode_utf8, valid_utf8};

verus! {

/// The metadata of a replay.
///
/// The game writes the metadata as one JSON object: the player, the seed,
/// the version, the date, the mode, the settings and what else a version of
/// the game or a mod adds. The codec keeps the object whole, so that nothing
/// of it is lost between reading and writing, and keeps beside it the one
/// member that decides how the inputs are read.
#[derive(Clone, Debug, PartialEq)]
pub struct GameReplayMetadata {
    /// The version of the game that made the replay. It mostly is a semantic
    /// version; mods use other forms.
    pub version: String,
    /// The whole metadata object.
    pub document: serde_json::Value,
}

/// A `GameReplayMetadata` as contracts see it.
pub struct MetadataView {
    pub version: Seq<char>,
    pub document: serde_json::Value,
}

/// The string that a document holds under `version`.
pub open spec fn document_version(document: serde_json::Value) -> Option<Seq<char>> {
    match json_member(document, "version"@) {
        Some(member) => json_string(member),
        None => None,
    }
}

impl MetadataView {
    /// Whether the version beside the document is the one in the document.
    pub open spec fn wf(self) -> bool {
        document_version(self.document) == Some(self.version)
    }
}

impl View for GameReplayMetadata {
    type V = MetadataView;

    open spec fn view(&self) -> MetadataView {
        MetadataView { version: self.version@, document: self.document }
    }
}

/// The metadata that some bytes hold: they must be UTF-8, the text must be
/// JSON, and the document must have a string under `version`.
pub open spec fn metadata_of_bytes(bytes: Seq<u8>) -> Result<MetadataView, ParseFailure> {
    if !valid_utf8(bytes) {
        Err(ParseFailure::MetadataNotUtf8)
    } else {
        match json_value(decode_utf8(bytes)) {
            None => Err(ParseFailure::MetadataDeserialize),
            Some(document) => match document_version(document) {
                None => Err(ParseFailure::MetadataDeserialize),
                Some(version) => Ok(MetadataView { version, document }),
            },
        }
    }
}

/// `String::from_utf8` of std, on a copy of the bytes: the text that the
/// bytes encode, and an error exactly where they are not UTF-8.
#[verifier::external_body]
fn string_from_utf8(bytes: &[u8]) -> (text: Result<String, std::string::FromUtf8Error>)
    ensures
        match text {
            Ok(string) => valid_utf8(bytes@) && string@ == decode_utf8(bytes@),
            Err(_) => !valid_utf8(bytes@),
        },
{
    String::from_utf8(bytes.to_vec())
}

impl GameReplayMetadata {
    /// Whether the version beside the document is the one in the document.
    /// Metadata that was read from bytes is so.
    pub open spec fn wf(&self) -> bool {
        self@.wf()
    }

    /// Reads metadata from the bytes of a replay's first line.
    pub fn try_from(value: &[u8]) -> (result: Result<GameReplayMetadata, ReplayParseError>)
        ensures
            match result {
                Ok(metadata) => metadata_of_bytes(value@) == Ok::<_, ParseFailure>(metadata@),
                Err(error) => metadata_of_bytes(value@) == Err::<MetadataView, _>(error@),
            },
    {
        let string = match string_from_utf8(value) {
            Ok(string) => string,
            Err(error) => {
                return Err(ReplayParseError::from(error));
            },
        };
        let document = match parse_json(string.as_str()) {
            Ok(document) => document,
            Err(error) => {
                return Err(ReplayParseError::from(error));
            },
        };
        let version = match member_of(&document, "version") {
            Some(member) => match string_of(member) {
                Some(characters) => Some(characters.to_owned()),
                None => None,
            },
            None => None,
        };
        match version {
            Some(version) => Ok(GameReplayMetadata { version, document }),
            None => Err(ReplayParseError::from(missing_field("version"))),
        }
    }
}

impl Default for GameReplayMetadata {
    /// Metadata with an empty version and the document `null`.
    fn default() -> (metadata: Self)
        ensures
            metadata.version@ == Seq::<char>::empty(),
    {
        GameReplayMetadata { version: String::new(), document: null_document() }
    }
}

} // verus!
