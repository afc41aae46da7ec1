//! The carrier as a stream of writable bytes.
//!
//! A carrier buffer holds whole RGBA pixels, four bytes each. The pixels with
//! alpha zero are the slots, taken in buffer order. The red, green and blue
//! bytes of the slots, in that order, are the lanes: the byte stream that the
//! carrier offers. Everything here is stated over `Seq<u8>`.

use vstd::prelude::*;

verus! {

/// The number of whole pixels in `data`.
pub open spec fn pixel_count(data: Seq<u8>) -> int {
    data.len() as int / 4
}

/// Whether pixel `p` of `data` is fully transparent.
pub open spec fn is_slot(data: Seq<u8>, p: int) -> bool {
    data[4 * p + 3] == 0
}

/// The number of slots among the first `p` pixels of `data`.
pub open spec fn slots_before(data: Seq<u8>, p: int) -> nat
    decreases p,
{
    if p <= 0 {
        0
    } else if is_slot(data, p - 1) {
        slots_before(data, p - 1) + 1
    } else {
        slots_before(data, p - 1)
    }
}

/// The number of slots in `data`.
pub open spec fn slot_count(data: Seq<u8>) -> nat {
    slots_before(data, pixel_count(data))
}

/// The slots among the first `p` pixels of `data`, as a set of pixel numbers.
pub open spec fn slot_set(data: Seq<u8>, p: int) -> Set<int> {
    Set::new(|q: int| 0 <= q < p && is_slot(data, q))
}

/// The number of bytes that the slots of `data` offer: three for each slot.
pub open spec fn capacity(data: Seq<u8>) -> nat {
    3 * slot_count(data)
}

/// The lanes of the first `p` pixels of `data`.
pub open spec fn lanes_before(data: Seq<u8>, p: int) -> Seq<u8>
    decreases p,
{
    if p <= 0 {
        Seq::empty()
    } else if is_slot(data, p - 1) {
        lanes_before(data, p - 1).push(data[4 * (p - 1)]).push(data[4 * (p - 1) + 1]).push(
            data[4 * (p - 1) + 2],
        )
    } else {
        lanes_before(data, p - 1)
    }
}

/// The lanes of `data`: the colour bytes of its slots, in buffer order.
pub open spec fn lanes(data: Seq<u8>) -> Seq<u8> {
    lanes_before(data, pixel_count(data))
}

/// The first `limit` bytes of `s`, or all of `s` where it is shorter.
pub open spec fn prefix(s: Seq<u8>, limit: int) -> Seq<u8> {
    if limit < s.len() {
        s.take(limit)
    } else {
        s
    }
}

/// Whether byte `i` of `data` is a lane: a colour byte of a slot.
pub open spec fn is_lane(data: Seq<u8>, i: int) -> bool {
    0 <= i < 4 * pixel_count(data) && i % 4 != 3 && is_slot(data, i / 4)
}

/// The place in the lane stream of byte `i`, where byte `i` is a lane.
pub open spec fn lane_rank(data: Seq<u8>, i: int) -> int {
    3 * slots_before(data, i / 4) + i % 4
}

/// The carrier after `stream` has been written over its first lanes: lane
/// `k` holds `stream[k]` for every `k` below the length of `stream`, and
/// every other byte is as it was.
pub open spec fn overwritten(data: Seq<u8>, stream: Seq<u8>) -> Seq<u8> {
    Seq::new(
        data.len(),
        |i: int|
            if is_lane(data, i) && lane_rank(data, i) < stream.len() {
                stream[lane_rank(data, i)]
            } else {
                data[i]
            },
    )
}

/// The carrier after `pattern` has been repeated over all of its lanes: lane
/// `k` holds `pattern[k % pattern.len()]`. An empty pattern changes nothing.
pub open spec fn tiled(data: Seq<u8>, pattern: Seq<u8>) -> Seq<u8> {
    Seq::new(
        data.len(),
        |i: int|
            if is_lane(data, i) && pattern.len() > 0 {
                pattern[lane_rank(data, i) % (pattern.len() as int)]
            } else {
                data[i]
            },
    )
}

/// The carrier with every alpha byte set to 255.
pub open spec fn opaque(data: Seq<u8>) -> Seq<u8> {
    Seq::new(data.len(), |i: int| if i % 4 == 3 { 255u8 } else { data[i] })
}

/// The colour bytes of all pixels of `data`, alpha left out.
pub open spec fn colours(data: Seq<u8>) -> Seq<u8> {
    Seq::new((3 * pixel_count(data)) as nat, |k: int| data[4 * (k / 3) + k % 3])
}

/// Whether two carriers have the same length and the same alpha bytes, and
/// so the same slots.
pub open spec fn same_alpha(a: Seq<u8>, b: Seq<u8>) -> bool {
    &&& a.len() == b.len()
    &&& forall|i: int| 0 <= i < a.len() && i % 4 == 3 ==> a[i] == b[i]
}

/// There are no more slots than pixels, and three lanes for each slot.
pub proof fn lemma_slots_bound(data: Seq<u8>, p: int)
    requires
        0 <= p,
    ensures
        slots_before(data, p) <= p,
        lanes_before(data, p).len() == 3 * slots_before(data, p),
    decreases p,
{
    if p > 0 {
        lemma_slots_bound(data, p - 1);
    }
}

/// The slot count is the number of pixels whose alpha byte is zero.
pub proof fn lemma_slot_count_is_set_size(data: Seq<u8>, p: int)
    requires
        0 <= p,
    ensures
        slot_set(data, p).finite(),
        slots_before(data, p) == slot_set(data, p).len(),
    decreases p,
{
    if p == 0 {
        assert(slot_set(data, p) =~= Set::<int>::empty());
    } else {
        lemma_slot_count_is_set_size(data, p - 1);
        if is_slot(data, p - 1) {
            assert(slot_set(data, p) =~= slot_set(data, p - 1).insert(p - 1));
        } else {
            assert(slot_set(data, p) =~= slot_set(data, p - 1));
        }
    }
}

/// The lane stream of a carrier has three bytes for each slot, and is no
/// longer than the carrier.
pub proof fn lemma_capacity(data: Seq<u8>)
    ensures
        lanes(data).len() == capacity(data),
        capacity(data) <= data.len(),
{
    lemma_slots_bound(data, pixel_count(data));
}

/// Carriers with the same alpha bytes have the same slots.
pub proof fn lemma_same_alpha_slots(a: Seq<u8>, b: Seq<u8>, p: int)
    requires
        same_alpha(a, b),
        0 <= p <= pixel_count(a),
    ensures
        slots_before(a, p) == slots_before(b, p),
    decreases p,
{
    if p > 0 {
        lemma_same_alpha_slots(a, b, p - 1);
        assert(a[4 * (p - 1) + 3] == b[4 * (p - 1) + 3]);
    }
}

/// A lane is found in the lane stream at its rank.
pub proof fn lemma_lane_at(data: Seq<u8>, p: int, i: int)
    requires
        is_lane(data, i),
        i / 4 < p <= pixel_count(data),
    ensures
        lane_rank(data, i) < lanes_before(data, p).len(),
        lanes_before(data, p)[lane_rank(data, i)] == data[i],
    decreases p,
{
    let q = i / 4;
    lemma_slots_bound(data, p - 1);
    lemma_slots_bound(data, p);
    if q < p - 1 {
        lemma_lane_at(data, p - 1, i);
    } else {
        assert(q == p - 1);
        assert(i == 4 * (p - 1) + i % 4);
    }
}

/// Where every lane of `b` holds what `f` gives for its rank, and `b` has
/// the slots of `a`, the lane stream of `b` is `f` applied to each place.
pub proof fn lemma_lanes_pointwise(a: Seq<u8>, b: Seq<u8>, f: spec_fn(int) -> u8, p: int)
    requires
        same_alpha(a, b),
        0 <= p <= pixel_count(a),
        forall|i: int| is_lane(a, i) ==> b[i] == f(lane_rank(a, i)),
    ensures
        lanes_before(b, p).len() == lanes_before(a, p).len(),
        forall|k: int| 0 <= k < lanes_before(b, p).len() ==> lanes_before(b, p)[k] == f(k),
    decreases p,
{
    if p > 0 {
        lemma_lanes_pointwise(a, b, f, p - 1);
        lemma_slots_bound(a, p - 1);
        lemma_slots_bound(b, p - 1);
        let base = 4 * (p - 1);
        assert(a[base + 3] == b[base + 3]);
        if is_slot(a, p - 1) {
            assert(is_lane(a, base) && lane_rank(a, base) == 3 * slots_before(a, p - 1));
            assert(is_lane(a, base + 1) && lane_rank(a, base + 1) == 3 * slots_before(a, p - 1)
                + 1);
            assert(is_lane(a, base + 2) && lane_rank(a, base + 2) == 3 * slots_before(a, p - 1)
                + 2);
        }
    }
}

/// The carrier keeps its alpha bytes, and so its slots, when lanes are
/// overwritten.
pub proof fn lemma_overwritten_alpha(data: Seq<u8>, stream: Seq<u8>)
    ensures
        same_alpha(data, overwritten(data, stream)),
        slot_count(overwritten(data, stream)) == slot_count(data),
{
    lemma_same_alpha_slots(data, overwritten(data, stream), pixel_count(data));
}

/// After `stream` has been written over the first lanes, the lane stream
/// starts with `stream` and goes on as before.
pub proof fn lemma_overwritten_lanes(data: Seq<u8>, stream: Seq<u8>)
    requires
        stream.len() <= lanes(data).len(),
    ensures
        lanes(overwritten(data, stream)) == stream + lanes(data).skip(stream.len() as int),
{
    let after = overwritten(data, stream);
    let before = lanes(data);
    let n = pixel_count(data);
    let f = |k: int| if k < stream.len() { stream[k] } else { before[k] };
    assert forall|i: int| is_lane(data, i) implies after[i] == f(lane_rank(data, i)) by {
        lemma_lane_at(data, n, i);
    }
    lemma_lanes_pointwise(data, after, f, n);
    assert(lanes(after) =~= stream + before.skip(stream.len() as int));
}

/// The carrier keeps its alpha bytes, and so its slots, when a pattern is
/// repeated over its lanes.
pub proof fn lemma_tiled_alpha(data: Seq<u8>, pattern: Seq<u8>)
    ensures
        same_alpha(data, tiled(data, pattern)),
        slot_count(tiled(data, pattern)) == slot_count(data),
{
    lemma_same_alpha_slots(data, tiled(data, pattern), pixel_count(data));
}

/// After a pattern has been repeated over the lanes, each place of the lane
/// stream holds the pattern's byte for that place.
pub proof fn lemma_tiled_lanes(data: Seq<u8>, pattern: Seq<u8>)
    requires
        pattern.len() > 0,
    ensures
        same_alpha(data, tiled(data, pattern)),
        lanes(tiled(data, pattern)).len() == lanes(data).len(),
        forall|k: int|
            0 <= k < lanes(data).len() ==> lanes(tiled(data, pattern))[k] == pattern[k % (
            pattern.len() as int)],
{
    let after = tiled(data, pattern);
    let f = |k: int| pattern[k % (pattern.len() as int)];
    lemma_lanes_pointwise(data, after, f, pixel_count(data));
}

/// Making a carrier opaque a second time changes nothing.
pub proof fn lemma_opaque_idempotent(data: Seq<u8>)
    ensures
        opaque(opaque(data)) == opaque(data),
{
    assert(opaque(opaque(data)) =~= opaque(data));
}

/// An opaque carrier has no slot left.
pub proof fn lemma_opaque_no_slots(data: Seq<u8>, p: int)
    requires
        0 <= p <= pixel_count(data),
    ensures
        slots_before(opaque(data), p) == 0,
    decreases p,
{
    if p > 0 {
        lemma_opaque_no_slots(data, p - 1);
    }
}

/// The lanes of fewer pixels are the start of the lanes of more pixels.
pub proof fn lemma_lanes_prefix(data: Seq<u8>, p: int, q: int)
    requires
        0 <= p <= q,
    ensures
        lanes_before(data, p).len() <= lanes_before(data, q).len(),
        lanes_before(data, q).take(lanes_before(data, p).len() as int) == lanes_before(data, p),
    decreases q - p,
{
    if p < q {
        lemma_lanes_prefix(data, p, q - 1);
        let short = lanes_before(data, p);
        let mid = lanes_before(data, q - 1);
        let long = lanes_before(data, q);
        assert(long.take(short.len() as int) =~= mid.take(short.len() as int));
    } else {
        assert(lanes_before(data, q).take(lanes_before(data, p).len() as int) =~= lanes_before(
            data,
            p,
        ));
    }
}

} // verus!
