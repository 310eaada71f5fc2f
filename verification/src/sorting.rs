//! Putting inputs in the order of their frames.

use crate::event::GameInputEvent;
use crate::inputs::sorted_by_frame;
use vstd::prelude::*;

verus! {

/// The inputs of one frame, in their order.
pub open spec fn inputs_of_frame(events: Seq<GameInputEvent>, frame: u64) -> Seq<GameInputEvent>
    decreases events.len(),
{
    if events.len() == 0 {
        Seq::empty()
    } else if events[0].frame == frame {
        seq![events[0]] + inputs_of_frame(events.drop_first(), frame)
    } else {
        inputs_of_frame(events.drop_first(), frame)
    }
}

/// What sorting makes of inputs: they come to stand in the order of their
/// frames, and the inputs of each frame stay the same and keep their order
/// among themselves.
pub open spec fn sorted_from(before: Seq<GameInputEvent>, after: Seq<GameInputEvent>) -> bool {
    &&& sorted_by_frame(after)
    &&& forall|frame: u64| #[trigger]
        inputs_of_frame(after, frame) == inputs_of_frame(before, frame)
}

/// `sort_by_key` of std's slices, with the frame for a key. std documents
/// that the slice comes out in ascending order of the key, and that the sort
/// is stable: it does not reorder elements of equal key.
#[verifier::external_body]
pub(crate) fn sort_by_frame(events: &mut Vec<GameInputEvent>)
    ensures
        sorted_from(old(events)@, final(events)@),
{
    events.sort_by_key(|event| event.frame);
}

/// A frame has inputs exactly if some input is of that frame.
proof fn lemma_frame_has_inputs(events: Seq<GameInputEvent>, frame: u64)
    ensures
        inputs_of_frame(events, frame).len() > 0 <==> exists|i: int|
            0 <= i < events.len() && (#[trigger] events[i]).frame == frame,
    decreases events.len(),
{
    if events.len() > 0 {
        let rest = events.drop_first();
        lemma_frame_has_inputs(rest, frame);
        if inputs_of_frame(events, frame).len() > 0 {
            if events[0].frame != frame {
                let i = choose|i: int| 0 <= i < rest.len() && (#[trigger] rest[i]).frame == frame;
                assert(events[i + 1].frame == frame);
            }
        }
        if exists|i: int| 0 <= i < events.len() && (#[trigger] events[i]).frame == frame {
            let i = choose|i: int| 0 <= i < events.len() && (#[trigger] events[i]).frame == frame;
            if events[0].frame != frame {
                assert(rest[i - 1].frame == frame);
            }
        }
    }
}

/// Sorting leaves inputs that are in order as they are.
pub proof fn lemma_sorted_inputs_stay(before: Seq<GameInputEvent>, after: Seq<GameInputEvent>)
    requires
        sorted_by_frame(before),
        sorted_from(before, after),
    ensures
        after == before,
    decreases before.len(),
{
    if before.len() == 0 {
        if after.len() > 0 {
            assert(inputs_of_frame(after, after[0].frame).len() > 0);
            assert(inputs_of_frame(before, after[0].frame).len() == 0);
        }
        assert(after =~= before);
    } else {
        let first = before[0];
        let frame = first.frame;
        let before_rest = before.drop_first();
        assert(inputs_of_frame(before, frame) == seq![first] + inputs_of_frame(before_rest, frame));
        assert(inputs_of_frame(after, frame) == inputs_of_frame(before, frame));
        lemma_frame_has_inputs(after, frame);
        let j = choose|j: int| 0 <= j < after.len() && (#[trigger] after[j]).frame == frame;
        let lowest = after[0].frame;
        assert(lowest <= after[j].frame);
        assert(inputs_of_frame(after, lowest).len() > 0);
        assert(inputs_of_frame(before, lowest) == inputs_of_frame(after, lowest));
        lemma_frame_has_inputs(before, lowest);
        let i = choose|i: int| 0 <= i < before.len() && (#[trigger] before[i]).frame == lowest;
        assert(before[0].frame <= before[i].frame);
        assert(lowest == frame);
        let after_rest = after.drop_first();
        assert(inputs_of_frame(after, frame) == seq![after[0]] + inputs_of_frame(after_rest, frame));
        assert(inputs_of_frame(after, frame)[0] == after[0]);
        assert(inputs_of_frame(before, frame)[0] == first);
        assert(after[0] == first);
        assert forall|other: u64| #[trigger]
            inputs_of_frame(after_rest, other) == inputs_of_frame(before_rest, other) by {
            assert(inputs_of_frame(after, other) == inputs_of_frame(before, other));
            if other == frame {
                assert(inputs_of_frame(after_rest, frame) =~= inputs_of_frame(
                    after,
                    frame,
                ).drop_first());
                assert(inputs_of_frame(before_rest, frame) =~= inputs_of_frame(
                    before,
                    frame,
                ).drop_first());
            }
        }
        assert(sorted_by_frame(before_rest)) by {
            assert forall|a: int, b: int| 0 <= a <= b < before_rest.len() implies before_rest[a].frame
                <= before_rest[b].frame by {
                assert(before_rest[a] == before[a + 1] && before_rest[b] == before[b + 1]);
            }
        }
        assert(sorted_by_frame(after_rest)) by {
            assert forall|a: int, b: int| 0 <= a <= b < after_rest.len() implies after_rest[a].frame
                <= after_rest[b].frame by {
                assert(after_rest[a] == after[a + 1] && after_rest[b] == after[b + 1]);
            }
        }
        lemma_sorted_inputs_stay(before_rest, after_rest);
        assert(after =~= seq![after[0]] + after_rest);
        assert(before =~= seq![first] + before_rest);
    }
}

} // verus!
