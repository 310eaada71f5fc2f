//! What holds between reading and writing: a replay that was written reads
//! back as it was, in each of its three forms, and sorting twice is sorting
//! once.

use crate::error::ParseFailure;
use crate::event::GameInputEvent;
use crate::inputs::{
    event_values, lemma_input_stream_round_trip, lemma_sorted_iff_no_inversion, sorted_by_frame,
    unsorted_failure,
};
use crate::json::{json_text, json_value};
use crate::layers::{base64_decoded, base64_encoded, zlib_deflated, zlib_inflated, DEFLATE_LEVEL};
use crate::mode::InputParseMode;
use crate::replay::{
    base64_of_replay, compressed_of_replay, lemma_first_separator_at,
    lemma_text_without_separator, raw_of_replay, replay_of_base64, replay_of_compressed,
    replay_of_raw, resolved_mode, ReplayView, SEPARATOR,
};
use crate::sorting::{lemma_sorted_inputs_stay, sorted_from};
use crate::vlq::vlq_encode;
use vstd::prelude::*;
use vstd::utf8::encode_utf8;

verus! {

/// Whether a document comes back from its own text: the text, where there
/// is one, holds no line feed and reads as the document.
pub open spec fn json_reads_back(document: serde_json::Value) -> bool {
    match json_text(document) {
        Some(text) => !text.contains('\n') && json_value(text) == Some(document),
        None => true,
    }
}

/// Whether the compressed form of some bytes inflates to those bytes.
pub open spec fn zlib_reads_back(raw: Seq<u8>) -> bool {
    zlib_inflated(zlib_deflated(raw, DEFLATE_LEVEL)) == Some(raw)
}

/// Whether the base64 text of some bytes stands for those bytes.
pub open spec fn base64_reads_back(bytes: Seq<u8>) -> bool {
    base64_decoded(base64_encoded(bytes)) == Some(bytes)
}

/// Reading undoes writing, on raw bytes: a replay whose metadata is well
/// formed and comes back from its own JSON text reads back, from the bytes
/// written for it, as it was, when it is read in the mode named on writing.
/// Writing succeeds exactly if the mode is named or told by the version,
/// the metadata can be written, and the inputs are in order.
pub proof fn lemma_raw_round_trip(replay: ReplayView, mode: Option<InputParseMode>)
    requires
        replay.metadata.wf(),
        json_reads_back(replay.metadata.document),
    ensures
        raw_of_replay(replay, mode) is Ok <==> {
            &&& resolved_mode(mode, replay.metadata.version) is Some
            &&& json_text(replay.metadata.document) is Some
            &&& sorted_by_frame(replay.inputs)
        },
        raw_of_replay(replay, mode) matches Ok(bytes) ==> replay_of_raw(bytes, mode) == Ok::<
            _,
            ParseFailure,
        >(replay),
{
    lemma_sorted_iff_no_inversion(replay.inputs);
    if raw_of_replay(replay, mode) is Ok {
        let bytes = raw_of_replay(replay, mode)->Ok_0;
        let used = resolved_mode(mode, replay.metadata.version)->Some_0;
        let text = json_text(replay.metadata.document)->Some_0;
        let head = encode_utf8(text);
        let stream = vlq_encode(event_values(replay.inputs, used, 0));
        let at = head.len() as int;
        assert(bytes == head + seq![SEPARATOR] + stream);
        lemma_text_without_separator(text);
        assert(bytes[at] == SEPARATOR);
        assert forall|i: int| 0 <= i < at implies bytes[i] != SEPARATOR by {
            assert(bytes[i] == head[i]);
        }
        lemma_first_separator_at(bytes, 0, at);
        assert(bytes.subrange(0, at) =~= head);
        assert(bytes.subrange(at + 1, bytes.len() as int) =~= stream);
        vstd::utf8::encode_utf8_valid_utf8(text);
        vstd::utf8::encode_utf8_decode_utf8(text);
        lemma_input_stream_round_trip(replay.inputs, used);
    }
}

/// Reading undoes writing, on compressed bytes: as `lemma_raw_round_trip`,
/// where the compressed form of the raw bytes inflates to them.
pub proof fn lemma_compressed_round_trip(replay: ReplayView, mode: Option<InputParseMode>)
    requires
        replay.metadata.wf(),
        json_reads_back(replay.metadata.document),
        raw_of_replay(replay, mode) matches Ok(raw) ==> zlib_reads_back(raw),
    ensures
        compressed_of_replay(replay, mode) is Ok <==> raw_of_replay(replay, mode) is Ok,
        compressed_of_replay(replay, mode) matches Ok(bytes) ==> replay_of_compressed(bytes, mode)
            == Ok::<_, ParseFailure>(replay),
{
    lemma_raw_round_trip(replay, mode);
}

/// Reading undoes writing, on base64 text: as `lemma_compressed_round_trip`,
/// where the text of the compressed bytes stands for them.
pub proof fn lemma_base64_round_trip(replay: ReplayView, mode: Option<InputParseMode>)
    requires
        replay.metadata.wf(),
        json_reads_back(replay.metadata.document),
        raw_of_replay(replay, mode) matches Ok(raw) ==> zlib_reads_back(raw),
        compressed_of_replay(replay, mode) matches Ok(compressed) ==> base64_reads_back(
            compressed,
        ),
    ensures
        base64_of_replay(replay, mode) is Ok <==> raw_of_replay(replay, mode) is Ok,
        base64_of_replay(replay, mode) matches Ok(text) ==> replay_of_base64(text, mode) == Ok::<
            _,
            ParseFailure,
        >(replay),
{
    lemma_compressed_round_trip(replay, mode);
}

/// A replay that was read, from whichever form, has well-formed metadata.
pub proof fn lemma_read_metadata_wf(data: Seq<u8>, text: Seq<char>, mode: Option<InputParseMode>)
    ensures
        replay_of_raw(data, mode) matches Ok(replay) ==> replay.metadata.wf(),
        replay_of_compressed(data, mode) matches Ok(replay) ==> replay.metadata.wf(),
        replay_of_base64(text, mode) matches Ok(replay) ==> replay.metadata.wf(),
{
}

/// Writing fails on inputs that are not in order, and says where: at the
/// first input that comes before its predecessor, whatever the mode, as
/// long as the mode is known and the metadata can be written.
pub proof fn lemma_unsorted_is_rejected(replay: ReplayView, mode: Option<InputParseMode>)
    requires
        resolved_mode(mode, replay.metadata.version) is Some,
        json_text(replay.metadata.document) is Some,
        !sorted_by_frame(replay.inputs),
    ensures
        unsorted_failure(replay.inputs) matches Some(failure) && raw_of_replay(replay, mode)
            == Err::<Seq<u8>, _>(failure) && compressed_of_replay(replay, mode) == Err::<Seq<u8>, _>(
            failure,
        ) && base64_of_replay(replay, mode) == Err::<Seq<char>, _>(failure),
        unsorted_failure(replay.inputs) is Some,
{
    lemma_sorted_iff_no_inversion(replay.inputs);
}

/// Sorting twice is sorting once: what sorting makes of sorted inputs is
/// those inputs.
pub proof fn lemma_sort_idempotent(
    before: Seq<GameInputEvent>,
    once: Seq<GameInputEvent>,
    twice: Seq<GameInputEvent>,
)
    requires
        sorted_from(before, once),
        sorted_from(once, twice),
    ensures
        twice == once,
{
    lemma_sorted_inputs_stay(once, twice);
}

/// Sorted inputs are not rejected for their order.
pub proof fn lemma_sorted_is_accepted(before: Seq<GameInputEvent>, after: Seq<GameInputEvent>)
    requires
        sorted_from(before, after),
    ensures
        unsorted_failure(after) is None,
{
    lemma_sorted_iff_no_inversion(after);
}

} // verus!
