//! A whole replay, and its three written forms: raw bytes, the compressed
//! bytes of a `.rep` file, and the base64 text that the game exports.

use crate::error::{ParseFailure, ReplayParseError, ReplaySerializeError, SerializeFailure};
use crate::event::GameInputEvent;
use crate::inputs::{
    event_values, events_of_bytes, get_first_unsorted, input_values,
    lemma_sorted_iff_no_inversion, parse_input_slice, unsorted_failure,
};
use crate::json::{json_text, print_json};
use crate::layers::{
    base64_decode, base64_decoded, base64_encode, base64_encoded, base64_length_fits,
    zlib_deflate, zlib_deflated, zlib_inflate, zlib_inflated, DEFLATE_LEVEL,
};
use crate::metadata::{metadata_of_bytes, GameReplayMetadata, MetadataView};
use crate::mode::InputParseMode;
use crate::sorting::{sort_by_frame, sorted_from};
use crate::vlq::{append_vlqs, vlq_encode};
use vstd::prelude::*;
use vstd::slice::slice_to_vec;
use vstd::utf8::{encode_scalar, encode_utf8};

verus! {

/// The byte that stands between the metadata and the inputs: a line feed.
pub const SEPARATOR: u8 = 10;

/// A replay: the inputs of a game and its metadata.
#[derive(Clone, Debug, PartialEq)]
pub struct GameReplayData {
    /// The inputs, in the order in which they happened.
    pub inputs: Vec<GameInputEvent>,
    /// The metadata.
    pub metadata: GameReplayMetadata,
}

/// A `GameReplayData` as contracts see it.
pub struct ReplayView {
    pub inputs: Seq<GameInputEvent>,
    pub metadata: MetadataView,
}

impl View for GameReplayData {
    type V = ReplayView;

    open spec fn view(&self) -> ReplayView {
        ReplayView { inputs: self.inputs@, metadata: self.metadata@ }
    }
}

/// The mode in which inputs are read or written: the one that the caller
/// names, else the one that the version tells.
pub open spec fn resolved_mode(given: Option<InputParseMode>, version: Seq<char>) -> Option<
    InputParseMode,
> {
    match given {
        Some(mode) => Some(mode),
        None => InputParseMode::inferred(version),
    }
}

/// The first index from `start` on at which `data` holds a separator.
pub open spec fn first_separator_from(data: Seq<u8>, start: int) -> Option<int>
    decreases data.len() - start,
{
    if start < 0 || start >= data.len() {
        None
    } else if data[start] == SEPARATOR {
        Some(start)
    } else {
        first_separator_from(data, start + 1)
    }
}

/// The first index at which `data` holds a separator.
pub open spec fn first_separator(data: Seq<u8>) -> Option<int> {
    first_separator_from(data, 0)
}

/// The replay that raw bytes hold. The metadata is what stands before the
/// first separator, the input stream what stands behind it.
pub open spec fn replay_of_raw(data: Seq<u8>, parse_mode: Option<InputParseMode>) -> Result<
    ReplayView,
    ParseFailure,
> {
    match first_separator(data) {
        None => Err(ParseFailure::MetadataSeparatorNotFound),
        Some(at) => match metadata_of_bytes(data.subrange(0, at)) {
            Err(failure) => Err(failure),
            Ok(metadata) => match resolved_mode(parse_mode, metadata.version) {
                None => Err(ParseFailure::UnknownInputParseMode(metadata.version)),
                Some(mode) => match events_of_bytes(
                    data.subrange(at + 1, data.len() as int),
                    mode,
                ) {
                    Err(failure) => Err(failure),
                    Ok(inputs) => Ok(ReplayView { inputs, metadata }),
                },
            },
        },
    }
}

/// The replay that compressed bytes hold.
pub open spec fn replay_of_compressed(
    data: Seq<u8>,
    parse_mode: Option<InputParseMode>,
) -> Result<ReplayView, ParseFailure> {
    match zlib_inflated(data) {
        None => Err(ParseFailure::ZlibDecompress),
        Some(raw) => replay_of_raw(raw, parse_mode),
    }
}

/// The replay that a base64 text holds.
pub open spec fn replay_of_base64(text: Seq<char>, parse_mode: Option<InputParseMode>) -> Result<
    ReplayView,
    ParseFailure,
> {
    match base64_decoded(text) {
        None => Err(ParseFailure::Base64Decode),
        Some(compressed) => replay_of_compressed(compressed, parse_mode),
    }
}

/// The raw bytes of a replay: the metadata as JSON, a separator, and the
/// input stream. The mode must be named or told by the version, the
/// metadata must be writable, and the inputs must be in order.
pub open spec fn raw_of_replay(replay: ReplayView, input_mode: Option<InputParseMode>) -> Result<
    Seq<u8>,
    SerializeFailure,
> {
    match resolved_mode(input_mode, replay.metadata.version) {
        None => Err(SerializeFailure::UnknownInputParseMode(replay.metadata.version)),
        Some(mode) => match json_text(replay.metadata.document) {
            None => Err(SerializeFailure::MetadataSerialize),
            Some(text) => match unsorted_failure(replay.inputs) {
                Some(failure) => Err(failure),
                None => Ok(
                    encode_utf8(text) + seq![SEPARATOR] + vlq_encode(
                        event_values(replay.inputs, mode, 0),
                    ),
                ),
            },
        },
    }
}

/// The compressed bytes of a replay.
pub open spec fn compressed_of_replay(
    replay: ReplayView,
    input_mode: Option<InputParseMode>,
) -> Result<Seq<u8>, SerializeFailure> {
    match raw_of_replay(replay, input_mode) {
        Err(failure) => Err(failure),
        Ok(raw) => Ok(zlib_deflated(raw, DEFLATE_LEVEL)),
    }
}

/// The base64 text of a replay.
pub open spec fn base64_of_replay(replay: ReplayView, input_mode: Option<InputParseMode>) -> Result<
    Seq<char>,
    SerializeFailure,
> {
    match compressed_of_replay(replay, input_mode) {
        Err(failure) => Err(failure),
        Ok(compressed) => Ok(base64_encoded(compressed)),
    }
}

/// Whether the base64 text of a replay has a length that fits in `usize`.
pub open spec fn base64_of_replay_fits(
    replay: ReplayView,
    input_mode: Option<InputParseMode>,
) -> bool {
    match compressed_of_replay(replay, input_mode) {
        Err(_) => true,
        Ok(compressed) => base64_length_fits(compressed.len()),
    }
}

/// The UTF-8 bytes of a character other than the line feed hold no line
/// feed.
proof fn lemma_scalar_without_separator(scalar: u32)
    requires
        scalar != 10,
    ensures
        forall|i: int|
            0 <= i < encode_scalar(scalar).len() ==> #[trigger] encode_scalar(scalar)[i] != 10,
{
    assert(scalar <= 0x7f ==> (scalar & 0x7F) as u8 != 10) by (bit_vector)
        requires
            scalar != 10,
    ;
    assert((0xC0 | ((scalar >> 6) & 0x1F) as u8) != 10 && (0xE0 | ((scalar >> 12) & 0x0F) as u8)
        != 10 && (0xF0 | ((scalar >> 18) & 0x7) as u8) != 10 && (0x80 | (scalar & 0x3F) as u8) != 10
        && (0x80 | ((scalar >> 6) & 0x3F) as u8) != 10 && (0x80 | ((scalar >> 12) & 0x3F) as u8)
        != 10) by (bit_vector);
}

/// The UTF-8 bytes of a text without line feed hold no line feed.
pub proof fn lemma_text_without_separator(text: Seq<char>)
    requires
        !text.contains('\n'),
    ensures
        forall|i: int|
            0 <= i < encode_utf8(text).len() ==> #[trigger] encode_utf8(text)[i] != SEPARATOR,
    decreases text.len(),
{
    if text.len() > 0 {
        let first = encode_scalar(text[0] as u32);
        let rest = text.drop_first();
        assert(!rest.contains('\n')) by {
            if rest.contains('\n') {
                let k = choose|k: int| 0 <= k < rest.len() && rest[k] == '\n';
                assert(text[k + 1] == '\n');
            }
        }
        assert(text[0] != '\n') by {
            if text[0] == '\n' {
                assert(text.contains('\n'));
            }
        }
        assert(text[0] as u32 != 10) by {
            let c: char = text[0];
            let u: u32 = c as u32;
            if u == 10 {
                vstd::utf8::char_u32_cast(c, u);
                vstd::utf8::char_u32_cast('\n', 10u32);
            }
        }
        lemma_scalar_without_separator(text[0] as u32);
        lemma_text_without_separator(rest);
        assert forall|i: int| 0 <= i < encode_utf8(text).len() implies encode_utf8(text)[i]
            != SEPARATOR by {
            if i >= first.len() {
                assert(encode_utf8(text)[i] == encode_utf8(rest)[i - first.len()]);
            } else {
                assert(encode_utf8(text)[i] == first[i]);
            }
        }
    }
}

/// The first separator is found where one stands and none stands before
/// it.
pub proof fn lemma_first_separator_at(data: Seq<u8>, start: int, at: int)
    requires
        0 <= start <= at < data.len(),
        data[at] == SEPARATOR,
        forall|i: int| start <= i < at ==> data[i] != SEPARATOR,
    ensures
        first_separator_from(data, start) == Some(at),
    decreases at - start,
{
    if start < at {
        lemma_first_separator_at(data, start + 1, at);
    }
}

/// The index of the first separator of `data`.
fn find_separator(data: &[u8]) -> (found: Option<usize>)
    ensures
        match found {
            Some(at) => first_separator(data@) == Some(at as int) && at < data@.len(),
            None => first_separator(data@) is None,
        },
{
    let mut at: usize = 0;
    while at < data.len()
        invariant
            at <= data@.len(),
            first_separator_from(data@, at as int) == first_separator(data@),
        decreases data@.len() - at,
    {
        if data[at] == SEPARATOR {
            return Some(at);
        }
        at += 1;
    }
    None
}

impl GameReplayData {
    /// Reads a replay from the base64 text that the game exports.
    ///
    /// `parse_mode` says how the inputs are timed; with `None` the version
    /// in the metadata must tell it.
    pub fn try_from_base64(string: &str, parse_mode: Option<InputParseMode>) -> (result: Result<
        GameReplayData,
        ReplayParseError,
    >)
        ensures
            match result {
                Ok(replay) => replay_of_base64(string@, parse_mode) == Ok::<_, ParseFailure>(
                    replay@,
                ),
                Err(error) => replay_of_base64(string@, parse_mode) == Err::<ReplayView, _>(
                    error@,
                ),
            },
    {
        match base64_decode(string) {
            Ok(data) => GameReplayData::try_from_compressed(data.as_slice(), parse_mode),
            Err(error) => Err(ReplayParseError::from(error)),
        }
    }

    /// Reads a replay from compressed bytes, such as a `.rep` file holds.
    ///
    /// `parse_mode` says how the inputs are timed; with `None` the version
    /// in the metadata must tell it.
    pub fn try_from_compressed(data: &[u8], parse_mode: Option<InputParseMode>) -> (result: Result<
        GameReplayData,
        ReplayParseError,
    >)
        ensures
            match result {
                Ok(replay) => replay_of_compressed(data@, parse_mode) == Ok::<_, ParseFailure>(
                    replay@,
                ),
                Err(error) => replay_of_compressed(data@, parse_mode) == Err::<ReplayView, _>(
                    error@,
                ),
            },
    {
        match zlib_inflate(data) {
            Ok(raw) => GameReplayData::try_from_raw(raw.as_slice(), parse_mode),
            Err(error) => Err(ReplayParseError::from(error)),
        }
    }

    /// Reads a replay from raw bytes: the metadata, a line feed, and the
    /// input stream.
    ///
    /// `parse_mode` says how the inputs are timed; with `None` the version
    /// in the metadata must tell it.
    pub fn try_from_raw(data: &[u8], parse_mode: Option<InputParseMode>) -> (result: Result<
        GameReplayData,
        ReplayParseError,
    >)
        ensures
            match result {
                Ok(replay) => replay_of_raw(data@, parse_mode) == Ok::<_, ParseFailure>(replay@),
                Err(error) => replay_of_raw(data@, parse_mode) == Err::<ReplayView, _>(error@),
            },
            result matches Ok(replay) ==> replay.metadata.wf(),
    {
        let first_newline = match find_separator(data) {
            Some(at) => at,
            None => {
                return Err(ReplayParseError::MetadataSeparatorNotFound);
            },
        };
        let (metadata_slice, rest) = data.split_at(first_newline);
        let (_, input_slice) = rest.split_at(1);
        proof {
            assert(input_slice@ =~= data@.subrange(first_newline + 1, data@.len() as int));
        }
        let metadata = match GameReplayMetadata::try_from(metadata_slice) {
            Ok(metadata) => metadata,
            Err(error) => {
                return Err(error);
            },
        };
        let parse_mode = match parse_mode {
            Some(mode) => mode,
            None => match InputParseMode::try_infer_from_version(metadata.version.as_str()) {
                Some(mode) => mode,
                None => {
                    return Err(ReplayParseError::UnknownInputParseMode(metadata.version));
                },
            },
        };
        match parse_input_slice(input_slice, parse_mode) {
            Ok(inputs) => Ok(GameReplayData { inputs, metadata }),
            Err(error) => Err(error),
        }
    }

    /// Puts the inputs in the order of their frames, which writing a replay
    /// asks for.
    pub fn sort_inputs(&mut self)
        ensures
            sorted_from(old(self).inputs@, final(self).inputs@),
            final(self).metadata == old(self).metadata,
    {
        sort_by_frame(&mut self.inputs);
    }

    /// Writes the replay as raw bytes: the metadata, a line feed, and the
    /// input stream.
    ///
    /// `input_mode` says how the inputs are to be timed; with `None` the
    /// version in the metadata must tell it. The inputs must be in the order
    /// of their frames: `sort_inputs` puts them so.
    pub fn serialize_to_raw(&self, input_mode: Option<InputParseMode>) -> (result: Result<
        Vec<u8>,
        ReplaySerializeError,
    >)
        ensures
            match result {
                Ok(bytes) => raw_of_replay(self@, input_mode) == Ok::<_, SerializeFailure>(
                    bytes@,
                ),
                Err(error) => raw_of_replay(self@, input_mode) == Err::<Seq<u8>, _>(error@),
            },
            result matches Ok(bytes) ==> json_text(self.metadata.document) matches Some(text)
                && first_separator(bytes@) == Some(encode_utf8(text).len() as int),
    {
        let input_mode = match input_mode {
            Some(mode) => mode,
            None => match InputParseMode::try_infer_from_version(self.metadata.version.as_str()) {
                Some(mode) => mode,
                None => {
                    return Err(
                        ReplaySerializeError::UnknownInputParseMode(self.metadata.version.clone()),
                    );
                },
            },
        };
        let json = match print_json(&self.metadata.document) {
            Ok(json) => json,
            Err(error) => {
                return Err(ReplaySerializeError::from(error));
            },
        };
        let mut buffer = slice_to_vec(json.as_str().as_bytes());
        if let Some(unsorted) = get_first_unsorted(self.inputs.as_slice()) {
            return Err(unsorted);
        }
        proof {
            lemma_sorted_iff_no_inversion(self.inputs@);
        }
        let values = input_values(self.inputs.as_slice(), input_mode);
        buffer.push(SEPARATOR);
        append_vlqs(&mut buffer, values.as_slice());
        proof {
            let at = encode_utf8(json@).len() as int;
            assert(buffer@ =~= encode_utf8(json@) + seq![SEPARATOR] + vlq_encode(values@));
            lemma_text_without_separator(json@);
            assert forall|i: int| 0 <= i < at implies buffer@[i] != SEPARATOR by {
                assert(buffer@[i] == encode_utf8(json@)[i]);
            }
            lemma_first_separator_at(buffer@, 0, at);
        }
        Ok(buffer)
    }

    /// Writes the replay as compressed bytes, such as a `.rep` file holds.
    ///
    /// `input_mode` and the order of the inputs are as for
    /// `serialize_to_raw`.
    pub fn serialize_to_compressed(&self, input_mode: Option<InputParseMode>) -> (result: Result<
        Vec<u8>,
        ReplaySerializeError,
    >)
        ensures
            match result {
                Ok(bytes) => compressed_of_replay(self@, input_mode) == Ok::<_, SerializeFailure>(
                    bytes@,
                ),
                Err(error) => compressed_of_replay(self@, input_mode) == Err::<Seq<u8>, _>(
                    error@,
                ),
            },
    {
        match self.serialize_to_raw(input_mode) {
            Ok(raw_bytes) => Ok(zlib_deflate(raw_bytes.as_slice(), DEFLATE_LEVEL)),
            Err(error) => Err(error),
        }
    }

    /// Writes the replay as the base64 text that the game imports.
    ///
    /// `input_mode` and the order of the inputs are as for
    /// `serialize_to_raw`. The length of the text must fit in `usize`;
    /// `try_serialize_to_base64` tests that.
    pub fn serialize_to_base64(&self, input_mode: Option<InputParseMode>) -> (result: Result<
        String,
        ReplaySerializeError,
    >)
        requires
            base64_of_replay_fits(self@, input_mode),
        ensures
            match result {
                Ok(text) => base64_of_replay(self@, input_mode) == Ok::<_, SerializeFailure>(
                    text@,
                ),
                Err(error) => base64_of_replay(self@, input_mode) == Err::<Seq<char>, _>(error@),
            },
    {
        match self.serialize_to_compressed(input_mode) {
            Ok(bytes) => Ok(base64_encode(bytes.as_slice())),
            Err(error) => Err(error),
        }
    }

    /// Writes the replay as base64 text where the length of the text fits in
    /// `usize`, and gives `None` where it does not.
    pub fn try_serialize_to_base64(&self, input_mode: Option<InputParseMode>) -> (result: Option<
        Result<String, ReplaySerializeError>,
    >)
        ensures
            result is Some <==> base64_of_replay_fits(self@, input_mode),
            match result {
                Some(Ok(text)) => base64_of_replay(self@, input_mode) == Ok::<
                    _,
                    SerializeFailure,
                >(text@),
                Some(Err(error)) => base64_of_replay(self@, input_mode) == Err::<Seq<char>, _>(
                    error@,
                ),
                None => true,
            },
    {
        let fits = match self.serialize_to_compressed(input_mode) {
            Ok(bytes) => {
                let length = bytes.len();
                match (length / 3).checked_mul(4) {
                    Some(whole) => length % 3 == 0 || whole.checked_add(4).is_some(),
                    None => false,
                }
            },
            Err(_) => true,
        };
        if fits {
            Some(self.serialize_to_base64(input_mode))
        } else {
            None
        }
    }
}

impl Default for GameReplayData {
    /// A replay without inputs, with the default metadata.
    fn default() -> (replay: Self)
        ensures
            replay.inputs@ == Seq::<GameInputEvent>::empty(),
            replay.metadata.version@ == Seq::<char>::empty(),
    {
        GameReplayData { inputs: Vec::new(), metadata: GameReplayMetadata::default() }
    }
}

} // verus!
