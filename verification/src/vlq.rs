//! Variable-length quantities: unsigned integers written as groups of seven
//! bits, most significant group first, with the high bit of every byte but
//! the last one of a number set.

use vstd::prelude::*;

verus! {

/// The accumulator after one more byte: the old bits move up by seven and the
/// byte's low seven bits come in below them. Bits that leave the top are lost.
pub open spec fn vlq_accumulate(acc: u64, byte: u8) -> u64 {
    (acc << 7) | ((byte & 0x7f) as u64)
}

/// The numbers that `bytes` hold when `acc` has been gathered from the bytes
/// before them. A number ends at a byte whose high bit is clear; bytes after
/// the last such byte belong to no number.
pub open spec fn vlq_decode_from(bytes: Seq<u8>, acc: u64) -> Seq<u64>
    decreases bytes.len(),
{
    if bytes.len() == 0 {
        Seq::empty()
    } else if bytes[0] >= 0x80 {
        vlq_decode_from(bytes.drop_first(), vlq_accumulate(acc, bytes[0]))
    } else {
        seq![vlq_accumulate(acc, bytes[0])] + vlq_decode_from(bytes.drop_first(), 0)
    }
}

/// The numbers that a byte stream holds.
pub open spec fn vlq_decode(bytes: Seq<u8>) -> Seq<u64> {
    vlq_decode_from(bytes, 0)
}

/// The bytes that stand before the last byte of a number whose bits above the
/// lowest seven are `upper`: one byte with the high bit set for each group of
/// seven bits, down from the highest group that is not zero.
pub open spec fn vlq_leading_bytes(upper: u64) -> Seq<u8>
    decreases upper,
    via vlq_leading_bytes_decreases
{
    if upper == 0 {
        Seq::empty()
    } else {
        vlq_leading_bytes(upper >> 7).push(((upper & 0x7f) | 0x80) as u8)
    }
}

#[via_fn]
proof fn vlq_leading_bytes_decreases(upper: u64) {
    assert(upper != 0 ==> (upper >> 7) < upper) by (bit_vector);
}

/// The shortest encoding of one number.
pub open spec fn vlq_encode_one(value: u64) -> Seq<u8> {
    vlq_leading_bytes(value >> 7).push((value & 0x7f) as u8)
}

/// The encodings of the numbers of `values`, one after another.
pub open spec fn vlq_encode(values: Seq<u64>) -> Seq<u8>
    decreases values.len(),
{
    if values.len() == 0 {
        Seq::empty()
    } else {
        vlq_encode_one(values[0]) + vlq_encode(values.drop_first())
    }
}

/// Reads every number of a byte stream.
pub fn extract_vlqs(vlqs: &[u8]) -> (numbers: Vec<u64>)
    ensures
        numbers@ == vlq_decode(vlqs@),
{
    let mut numbers: Vec<u64> = Vec::new();
    let mut cur_num: u64 = 0;
    let mut i: usize = 0;
    proof {
        assert(vlqs@.skip(0) =~= vlqs@);
    }
    while i < vlqs.len()
        invariant
            i <= vlqs@.len(),
            numbers@ + vlq_decode_from(vlqs@.skip(i as int), cur_num) == vlq_decode(vlqs@),
        decreases vlqs@.len() - i,
    {
        let vlq: u8 = vlqs[i];
        proof {
            assert(vlqs@.skip(i as int).drop_first() =~= vlqs@.skip(i + 1));
        }
        let value: u8 = vlq & 0x7f;
        cur_num = (cur_num << 7) | (value as u64);
        if vlq < 0x80 {
            numbers.push(cur_num);
            cur_num = 0;
        }
        i += 1;
    }
    numbers
}

/// Appends the encoding of one number to `buffer`.
fn append_vlq(buffer: &mut Vec<u8>, value: u64)
    ensures
        final(buffer)@ == old(buffer)@ + vlq_encode_one(value),
{
    let ghost start = buffer@;
    // The groups of seven bits, lowest first; at most ten of them.
    let mut groups: Vec<u8> = Vec::new();
    groups.push((value & 0x7f) as u8);
    let mut rest: u64 = value >> 7;
    while rest > 0
        invariant
            groups@.len() >= 1,
            groups@[0] == (value & 0x7f) as u8,
            vlq_leading_bytes(value >> 7) == vlq_leading_bytes(rest) + Seq::new(
                (groups@.len() - 1) as nat,
                |k: int| groups@[groups@.len() - 1 - k],
            ),
        decreases rest,
    {
        let ghost before = groups@;
        groups.push(((rest & 0x7f) | 0x80) as u8);
        proof {
            assert(rest >> 7 < rest) by (bit_vector)
                requires
                    rest > 0,
            ;
            let earlier = Seq::new((before.len() - 1) as nat, |k: int| before[before.len() - 1 - k]);
            let now = Seq::new((groups@.len() - 1) as nat, |k: int| groups@[groups@.len() - 1 - k]);
            assert(now =~= seq![((rest & 0x7f) | 0x80) as u8] + earlier);
            assert(vlq_leading_bytes(rest) + earlier =~= vlq_leading_bytes(rest >> 7) + now);
        }
        rest = rest >> 7;
    }
    let mut i: usize = groups.len();
    while i > 0
        invariant
            i <= groups@.len(),
            buffer@ == start + Seq::new(
                (groups@.len() - i) as nat,
                |k: int| groups@[groups@.len() - 1 - k],
            ),
        decreases i,
    {
        i -= 1;
        buffer.push(groups[i]);
    }
    proof {
        assert(buffer@ =~= start + vlq_encode_one(value));
    }
}

/// Appends the encodings of `values` to `buffer`, in order.
pub fn append_vlqs(buffer: &mut Vec<u8>, values: &[u64])
    ensures
        final(buffer)@ == old(buffer)@ + vlq_encode(values@),
{
    let ghost start = buffer@;
    let mut i: usize = 0;
    proof {
        assert(values@.skip(0) =~= values@);
    }
    while i < values.len()
        invariant
            i <= values@.len(),
            buffer@ + vlq_encode(values@.skip(i as int)) == start + vlq_encode(values@),
        decreases values@.len() - i,
    {
        let ghost before = buffer@;
        append_vlq(buffer, values[i]);
        proof {
            assert(values@.skip(i as int).drop_first() =~= values@.skip(i + 1));
            assert(before + vlq_encode(values@.skip(i as int)) =~= buffer@ + vlq_encode(
                values@.skip(i + 1),
            ));
        }
        i += 1;
    }
}

/// The encodings of `values`, one after another, in a new buffer.
pub fn _create_vlqs(values: &[u64]) -> (vlqs: Vec<u8>)
    ensures
        vlqs@ == vlq_encode(values@),
{
    let mut vlqs: Vec<u8> = Vec::new();
    append_vlqs(&mut vlqs, values);
    vlqs
}

/// Decoding passes over the leading bytes of a number and arrives at its last
/// byte with the upper bits gathered.
proof fn lemma_decode_leading_bytes(upper: u64, rest: Seq<u8>)
    ensures
        vlq_decode_from(vlq_leading_bytes(upper) + rest, 0) == vlq_decode_from(rest, upper),
    decreases upper,
{
    if upper == 0 {
        assert(vlq_leading_bytes(upper) + rest =~= rest);
    } else {
        let byte = ((upper & 0x7f) | 0x80) as u8;
        let tail = seq![byte] + rest;
        assert(upper >> 7 < upper) by (bit_vector)
            requires
                upper != 0,
        ;
        lemma_decode_leading_bytes(upper >> 7, tail);
        assert(vlq_leading_bytes(upper) + rest =~= vlq_leading_bytes(upper >> 7) + tail);
        assert(tail.drop_first() =~= rest);
        assert(byte >= 0x80 && vlq_accumulate(upper >> 7, byte) == upper) by (bit_vector)
            requires
                byte == ((upper & 0x7f) | 0x80) as u8,
        ;
    }
}

/// Decoding reads one encoded number and goes on with what follows it.
pub proof fn lemma_vlq_decode_one(value: u64, rest: Seq<u8>)
    ensures
        vlq_decode(vlq_encode_one(value) + rest) == seq![value] + vlq_decode(rest),
{
    let last = (value & 0x7f) as u8;
    let tail = seq![last] + rest;
    lemma_decode_leading_bytes(value >> 7, tail);
    assert(vlq_encode_one(value) + rest =~= vlq_leading_bytes(value >> 7) + tail);
    assert(tail.drop_first() =~= rest);
    assert(last < 0x80 && vlq_accumulate(value >> 7, last) == value) by (bit_vector)
        requires
            last == (value & 0x7f) as u8,
    ;
}

/// Decoding undoes encoding: every sequence of numbers comes back from its
/// own encoding unchanged.
pub proof fn lemma_vlq_round_trip(values: Seq<u64>)
    ensures
        vlq_decode(vlq_encode(values)) == values,
    decreases values.len(),
{
    if values.len() > 0 {
        let tail = values.drop_first();
        lemma_vlq_round_trip(tail);
        lemma_vlq_decode_one(values[0], vlq_encode(tail));
        assert(seq![values[0]] + tail =~= values);
    }
}

} // verus!
