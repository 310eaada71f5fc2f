//! The input stream of a replay: two numbers for each event, its time and
//! then its key together with its kind.

use crate::error::{ParseFailure, ReplayParseError, ReplaySerializeError, SerializeFailure};
use crate::event::{GameInputEvent, InputEventKey, InputEventKind};
use crate::mode::InputParseMode;
use crate::vlq::{extract_vlqs, lemma_vlq_round_trip, vlq_decode, vlq_encode};
use vstd::prelude::*;

verus! {

/// The number that names the key and the kind of an event: the key's code
/// in the low five bits, and the sixth bit set for a release.
pub open spec fn key_value(key: InputEventKey, kind: InputEventKind) -> u64 {
    (key.wire_code() | (kind.wire_bit() << 5)) as u64
}

/// The low five bits of a number of the stream, where the key's code stands.
pub open spec fn key_code_of(value: u64) -> u8 {
    (value & 0x1f) as u8
}

/// The kind that a number of the stream names: a release if the number is
/// above 32, else a press.
pub open spec fn kind_of(value: u64) -> InputEventKind {
    if value > 0x20 {
        InputEventKind::Release
    } else {
        InputEventKind::Press
    }
}

/// The time that is written for an event in `frame` when the event before it
/// was in `previous`.
pub open spec fn time_value(frame: u64, previous: u64, mode: InputParseMode) -> u64 {
    match mode {
        InputParseMode::Relative => if frame >= previous {
            (frame - previous) as u64
        } else {
            0
        },
        InputParseMode::Absolute => frame,
    }
}

/// The frame of an event whose time is written as `time` when the event
/// before it was in `previous`. A sum that does not fit in 64 bits wraps
/// around.
pub open spec fn frame_of(time: u64, previous: u64, mode: InputParseMode) -> u64 {
    match mode {
        InputParseMode::Relative => time.wrapping_add(previous),
        InputParseMode::Absolute => time,
    }
}

/// The numbers that stand for `events` when the event before them was in
/// `previous`: for each event its time, then its key and kind.
pub open spec fn event_values(
    events: Seq<GameInputEvent>,
    mode: InputParseMode,
    previous: u64,
) -> Seq<u64>
    decreases events.len(),
{
    if events.len() == 0 {
        Seq::empty()
    } else {
        seq![
            time_value(events[0].frame, previous, mode),
            key_value(events[0].key, events[0].kind),
        ] + event_values(events.drop_first(), mode, events[0].frame)
    }
}

/// `events` before what `rest` holds, or the failure of `rest`.
pub open spec fn events_then(
    events: Seq<GameInputEvent>,
    rest: Result<Seq<GameInputEvent>, ParseFailure>,
) -> Result<Seq<GameInputEvent>, ParseFailure> {
    match rest {
        Ok(more) => Ok(events + more),
        Err(failure) => Err(failure),
    }
}

/// The events that the numbers `values` stand for, when `position` numbers
/// came before them and the event before them was in `previous`. Two numbers
/// make an event; a last number without a partner is left out. The first
/// number that should name a key and names none makes the whole stream fail.
pub open spec fn events_of_values(
    values: Seq<u64>,
    mode: InputParseMode,
    previous: u64,
    position: nat,
) -> Result<Seq<GameInputEvent>, ParseFailure>
    decreases values.len(),
{
    if values.len() < 2 {
        Ok(Seq::empty())
    } else {
        let frame = frame_of(values[0], previous, mode);
        match InputEventKey::of_wire_code(key_code_of(values[1])) {
            None => Err(
                ParseFailure::MalformedInputData {
                    position: position as u64,
                    frame,
                    kind: values[1],
                },
            ),
            Some(key) => events_then(
                seq![GameInputEvent { frame, kind: kind_of(values[1]), key }],
                events_of_values(values.skip(2), mode, frame, position + 2),
            ),
        }
    }
}

/// The events that the bytes of an input stream hold.
pub open spec fn events_of_bytes(bytes: Seq<u8>, mode: InputParseMode) -> Result<
    Seq<GameInputEvent>,
    ParseFailure,
> {
    events_of_values(vlq_decode(bytes), mode, 0, 0)
}

/// Reads the events of an input stream.
pub fn parse_input_slice(input_slice: &[u8], parse_mode: InputParseMode) -> (result: Result<
    Vec<GameInputEvent>,
    ReplayParseError,
>)
    ensures
        match result {
            Ok(events) => events_of_bytes(input_slice@, parse_mode) == Ok::<_, ParseFailure>(
                events@,
            ),
            Err(error) => events_of_bytes(input_slice@, parse_mode) == Err::<
                Seq<GameInputEvent>,
                _,
            >(error@),
        },
{
    let values = extract_vlqs(input_slice);
    let mut events: Vec<GameInputEvent> = Vec::new();
    let mut prev_timestamp: u64 = 0;
    let mut i: usize = 0;
    proof {
        assert(values@.skip(0) =~= values@);
        assert(events_then(events@, events_of_values(values@, parse_mode, 0, 0))
            == events_of_values(values@, parse_mode, 0, 0)) by {
            match events_of_values(values@, parse_mode, 0, 0) {
                Ok(more) => {
                    assert(events@ + more =~= more);
                },
                Err(_) => {},
            }
        }
    }
    while values.len() - i >= 2
        invariant
            i <= values@.len(),
            events_of_bytes(input_slice@, parse_mode) == events_then(
                events@,
                events_of_values(values@.skip(i as int), parse_mode, prev_timestamp, i as nat),
            ),
            values@ == vlq_decode(input_slice@),
        decreases values@.len() - i,
    {
        let time: u64 = values[i];
        let key: u64 = values[i + 1];
        let frame: u64 = match parse_mode {
            InputParseMode::Relative => time.wrapping_add(prev_timestamp),
            InputParseMode::Absolute => time,
        };
        let kind = InputEventKind::from(key > 0x20);
        assert(key & 0x1f < 0x100) by (bit_vector);
        let code: u8 = (key & 0x1f) as u8;
        let ghost rest = events_of_values(values@.skip(i + 2), parse_mode, frame, (i + 2) as nat);
        proof {
            assert(values@.skip(i as int).skip(2) =~= values@.skip(i + 2));
        }
        let key = match InputEventKey::try_from(code) {
            Ok(key) => key,
            Err(_) => {
                return Err(
                    ReplayParseError::MalformedInputData { frame, position: i as u64, kind: key },
                );
            },
        };
        let event = GameInputEvent { frame, key, kind };
        proof {
            match rest {
                Ok(more) => {
                    assert(events@ + (seq![event] + more) =~= events@.push(event) + more);
                },
                Err(_) => {},
            }
        }
        prev_timestamp = frame;
        events.push(event);
        i += 2;
    }
    proof {
        assert(events@ + Seq::<GameInputEvent>::empty() =~= events@);
    }
    Ok(events)
}

/// Whether no event comes before an earlier one.
pub open spec fn sorted_by_frame(events: Seq<GameInputEvent>) -> bool {
    forall|i: int, j: int| 0 <= i <= j < events.len() ==> events[i].frame <= events[j].frame
}

/// The first index from `start` on whose event has a lower frame than the
/// event just before it.
pub open spec fn first_inversion_from(events: Seq<GameInputEvent>, start: int) -> Option<int>
    decreases events.len() - start,
{
    if start < 1 || start >= events.len() {
        None
    } else if events[start].frame < events[start - 1].frame {
        Some(start)
    } else {
        first_inversion_from(events, start + 1)
    }
}

/// The first index whose event has a lower frame than the event just before
/// it.
pub open spec fn first_inversion(events: Seq<GameInputEvent>) -> Option<int> {
    first_inversion_from(events, 1)
}

/// What is reported of events that are not in order.
pub open spec fn unsorted_failure(events: Seq<GameInputEvent>) -> Option<SerializeFailure> {
    match first_inversion(events) {
        Some(index) => Some(
            SerializeFailure::UnsortedInput {
                first_unsorted_index: index as usize,
                prev_time: events[index - 1].frame,
                unsorted_time: events[index].frame,
            },
        ),
        None => None,
    }
}

/// Whether the event at `index` is no earlier than the one just before it.
pub open spec fn in_order_at(events: Seq<GameInputEvent>, index: int) -> bool {
    events[index - 1].frame <= events[index].frame
}

/// What `first_inversion_from` finds is an inversion, and there is none
/// between `start` and it; where it finds nothing there is none from `start`
/// on.
pub proof fn lemma_first_inversion_from(events: Seq<GameInputEvent>, start: int)
    requires
        1 <= start,
    ensures
        match first_inversion_from(events, start) {
            Some(index) => {
                &&& start <= index < events.len()
                &&& !in_order_at(events, index)
                &&& forall|k: int| start <= k < index ==> #[trigger] in_order_at(events, k)
            },
            None => forall|k: int| start <= k < events.len() ==> #[trigger] in_order_at(events, k),
        },
    decreases events.len() - start,
{
    if start < events.len() && events[start].frame >= events[start - 1].frame {
        lemma_first_inversion_from(events, start + 1);
        assert(in_order_at(events, start));
    }
}

/// Events are in order exactly if no event has a lower frame than the one
/// just before it.
pub proof fn lemma_sorted_iff_no_inversion(events: Seq<GameInputEvent>)
    ensures
        sorted_by_frame(events) <==> first_inversion(events) is None,
{
    lemma_first_inversion_from(events, 1);
    if first_inversion(events) is None {
        assert forall|i: int, j: int| 0 <= i <= j < events.len() implies events[i].frame
            <= events[j].frame by {
            lemma_adjacent_order_reaches(events, i, j);
        }
    }
}

/// Where each event is no earlier than the one just before it, none is
/// earlier than any before it.
proof fn lemma_adjacent_order_reaches(events: Seq<GameInputEvent>, i: int, j: int)
    requires
        0 <= i <= j < events.len(),
        forall|k: int| 1 <= k < events.len() ==> #[trigger] in_order_at(events, k),
    ensures
        events[i].frame <= events[j].frame,
    decreases j - i,
{
    if i < j {
        lemma_adjacent_order_reaches(events, i, j - 1);
        assert(in_order_at(events, j));
    }
}

/// Looks for the first input that comes before its predecessor, and reports
/// it.
pub fn get_first_unsorted(inputs: &[GameInputEvent]) -> (found: Option<ReplaySerializeError>)
    ensures
        match found {
            Some(error) => unsorted_failure(inputs@) == Some(error@),
            None => unsorted_failure(inputs@) is None,
        },
{
    let mut index: usize = 1;
    while index < inputs.len()
        invariant
            1 <= index,
            first_inversion_from(inputs@, index as int) == first_inversion(inputs@),
        decreases inputs@.len() - index,
    {
        let prev = inputs[index - 1];
        let cur = inputs[index];
        if cur.frame < prev.frame {
            return Some(
                ReplaySerializeError::UnsortedInput {
                    first_unsorted_index: index,
                    prev_time: prev.frame,
                    unsorted_time: cur.frame,
                },
            );
        }
        index += 1;
    }
    None
}

/// Writes sorted inputs as the numbers of an input stream.
pub fn input_values(inputs: &[GameInputEvent], input_mode: InputParseMode) -> (values: Vec<u64>)
    requires
        sorted_by_frame(inputs@),
    ensures
        values@ == event_values(inputs@, input_mode, 0),
{
    let mut values: Vec<u64> = Vec::new();
    let mut prev_time: u64 = 0;
    let mut i: usize = 0;
    proof {
        assert(inputs@.skip(0) =~= inputs@);
    }
    while i < inputs.len()
        invariant
            i <= inputs@.len(),
            sorted_by_frame(inputs@),
            i == 0 ==> prev_time == 0,
            i > 0 ==> prev_time == inputs@[i - 1].frame,
            values@ + event_values(inputs@.skip(i as int), input_mode, prev_time) == event_values(
                inputs@,
                input_mode,
                0,
            ),
        decreases inputs@.len() - i,
    {
        let input = inputs[i];
        let code: u8 = u8::from(input.key);
        let bit: u8 = u8::from(input.kind);
        let key: u8 = code | (bit << 5);
        let time: u64 = match input_mode {
            InputParseMode::Relative => input.frame - prev_time,
            InputParseMode::Absolute => input.frame,
        };
        proof {
            let rest = event_values(inputs@.skip(i + 1), input_mode, input.frame);
            assert(inputs@.skip(i as int).drop_first() =~= inputs@.skip(i + 1));
            assert(values@ + (seq![time, key as u64] + rest) =~= values@.push(time).push(
                key as u64,
            ) + rest);
        }
        prev_time = input.frame;
        values.push(time);
        values.push(key as u64);
        i += 1;
    }
    proof {
        assert(values@ + Seq::<u64>::empty() =~= values@);
    }
    values
}

/// The number that names a key and a kind gives both back.
pub proof fn lemma_key_value_read_back(key: InputEventKey, kind: InputEventKind)
    ensures
        InputEventKey::of_wire_code(key_code_of(key_value(key, kind))) == Some(key),
        kind_of(key_value(key, kind)) == kind,
{
    let code = key.wire_code();
    let bit = kind.wire_bit();
    assert(((code | (bit << 5)) as u64 & 0x1f) as u8 == code && (((code | (bit << 5)) as u64
        > 0x20) <==> bit == 1)) by (bit_vector)
        requires
            1 <= code <= 20,
            bit <= 1,
    ;
}

/// Reading undoes writing: events in order come back from their own numbers
/// unchanged, in either mode.
pub proof fn lemma_event_values_round_trip(
    events: Seq<GameInputEvent>,
    mode: InputParseMode,
    previous: u64,
    position: nat,
)
    requires
        sorted_by_frame(events),
        events.len() > 0 ==> previous <= events[0].frame,
    ensures
        events_of_values(event_values(events, mode, previous), mode, previous, position) == Ok::<
            _,
            ParseFailure,
        >(events),
    decreases events.len(),
{
    if events.len() > 0 {
        let first = events[0];
        let tail = events.drop_first();
        let values = event_values(events, mode, previous);
        let tail_values = event_values(tail, mode, first.frame);
        assert(sorted_by_frame(tail)) by {
            assert forall|i: int, j: int| 0 <= i <= j < tail.len() implies tail[i].frame
                <= tail[j].frame by {
                assert(tail[i] == events[i + 1] && tail[j] == events[j + 1]);
            }
        }
        if tail.len() > 0 {
            assert(tail[0] == events[1]);
        }
        lemma_event_values_round_trip(tail, mode, first.frame, position + 2);
        lemma_key_value_read_back(first.key, first.kind);
        assert(values == seq![
            time_value(first.frame, previous, mode),
            key_value(first.key, first.kind),
        ] + tail_values);
        assert(values.len() >= 2);
        assert(values[0] == time_value(first.frame, previous, mode));
        assert(values[1] == key_value(first.key, first.kind));
        assert(values.skip(2) =~= tail_values);
        assert(frame_of(values[0], previous, mode) == first.frame);
        assert(seq![first] + tail =~= events);
        assert(events_of_values(values, mode, previous, position) == events_then(
            seq![first],
            events_of_values(tail_values, mode, first.frame, position + 2),
        ));
    } else {
        assert(events =~= Seq::empty());
    }
}

/// Reading undoes writing, on bytes: events in order come back unchanged
/// from the encoding of their own numbers.
pub proof fn lemma_input_stream_round_trip(events: Seq<GameInputEvent>, mode: InputParseMode)
    requires
        sorted_by_frame(events),
    ensures
        events_of_bytes(vlq_encode(event_values(events, mode, 0)), mode) == Ok::<
            _,
            ParseFailure,
        >(events),
{
    lemma_vlq_round_trip(event_values(events, mode, 0));
    lemma_event_values_round_trip(events, mode, 0, 0);
}

/// Whether the number that should name the key of the event `pair` does so:
/// whether its low five bits lie between 1 and 20.
pub open spec fn pair_names_key(values: Seq<u64>, pair: int) -> bool {
    InputEventKey::of_wire_code(key_code_of(values[2 * pair + 1])) is Some
}

/// The first event whose number names no key makes the whole stream fail,
/// and the failure tells the place of the event's first number, the number
/// that should have named the key, and, with absolute times, the frame.
pub proof fn lemma_malformed_key_is_rejected(
    values: Seq<u64>,
    mode: InputParseMode,
    previous: u64,
    position: nat,
    pair: nat,
)
    requires
        2 * pair + 1 < values.len(),
        !pair_names_key(values, pair as int),
        forall|earlier: int| 0 <= earlier < pair ==> #[trigger] pair_names_key(values, earlier),
    ensures
        events_of_values(values, mode, previous, position) matches Err(
            ParseFailure::MalformedInputData { position: at, frame, kind },
        ) && at == (position + 2 * pair) as u64 && kind == values[2 * pair as int + 1] && (mode
            == InputParseMode::Absolute ==> frame == values[2 * pair as int]),
    decreases pair,
{
    if pair > 0 {
        let rest = values.skip(2);
        let frame = frame_of(values[0], previous, mode);
        assert(pair_names_key(values, 0));
        assert(rest[2 * (pair - 1) + 1] == values[2 * pair as int + 1]);
        assert(rest[2 * (pair - 1)] == values[2 * pair as int]);
        assert forall|earlier: int| 0 <= earlier < pair - 1 implies #[trigger] pair_names_key(
            rest,
            earlier,
        ) by {
            assert(pair_names_key(values, earlier + 1));
            assert(rest[2 * earlier + 1] == values[2 * (earlier + 1) + 1]);
        }
        lemma_malformed_key_is_rejected(rest, mode, frame, position + 2, (pair - 1) as nat);
    }
}

} // verus!
