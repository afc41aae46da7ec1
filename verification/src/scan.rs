//! Walking a carrier buffer: counting its slots, reading its lanes and
//! writing into them.
//!
//! Every function here takes any buffer. Bytes after the last whole pixel are
//! never read as a pixel and never written.

use crate::lanes::{
    colours, lanes, lanes_before, lemma_lanes_prefix, lemma_slots_bound, opaque, overwritten,
    pixel_count, prefix, slot_count, slots_before, tiled,
};
use vstd::prelude::*;

verus! {

/// Counts the fully transparent pixels of `data`.
pub fn count_slots(data: &[u8]) -> (count: usize)
    ensures
        count == slot_count(data@),
        count <= pixel_count(data@) <= usize::MAX / 4,
{
    let n = data.len() / 4;
    let mut p: usize = 0;
    let mut count: usize = 0;
    while p < n
        invariant
            p <= n,
            n == pixel_count(data@),
            4 * n <= data@.len() <= usize::MAX,
            count == slots_before(data@, p as int),
            count <= p,
        decreases n - p,
    {
        if data[4 * p + 3] == 0 {
            count += 1;
        }
        p += 1;
    }
    count
}

/// Reads the first `limit` lanes of `data`, or all of them where there are
/// fewer.
pub fn read_lanes(data: &[u8], limit: usize) -> (out: Vec<u8>)
    ensures
        out@ == prefix(lanes(data@), limit as int),
{
    let n = data.len() / 4;
    let mut p: usize = 0;
    let mut out: Vec<u8> = Vec::new();
    while p < n && out.len() < limit
        invariant
            p <= n,
            n == pixel_count(data@),
            4 * n <= data@.len() <= usize::MAX,
            out@ == prefix(lanes_before(data@, p as int), limit as int),
        decreases n - p,
    {
        let base = 4 * p;
        if data[base + 3] == 0 {
            if out.len() < limit {
                out.push(data[base]);
            }
            if out.len() < limit {
                out.push(data[base + 1]);
            }
            if out.len() < limit {
                out.push(data[base + 2]);
            }
        }
        p += 1;
        assert(out@ =~= prefix(lanes_before(data@, p as int), limit as int));
    }
    proof {
        lemma_lanes_prefix(data@, p as int, n as int);
        assert(out@ =~= prefix(lanes(data@), limit as int));
    }
    out
}

/// Byte `k` of the stream made of `head` followed by `body`, if it has one.
fn stream_byte(head: &[u8], body: &[u8], k: usize) -> (byte: Option<u8>)
    ensures
        byte == if k < (head@ + body@).len() {
            Some((head@ + body@)[k as int])
        } else {
            None
        },
{
    if k < head.len() {
        Some(head[k])
    } else if k - head.len() < body.len() {
        Some(body[k - head.len()])
    } else {
        None
    }
}

/// Writes `head` and then `body` over the first lanes of `data`.
///
/// Bytes of the stream for which no lane is left are not written anywhere.
pub fn write_lanes(data: &mut Vec<u8>, head: &[u8], body: &[u8])
    ensures
        final(data)@ == overwritten(old(data)@, head@ + body@),
{
    let ghost before = data@;
    let ghost stream = head@ + body@;
    let end = data.len() / 4 * 4;
    let mut i: usize = 0;
    let mut seen: usize = 0;
    while i < end
        invariant
            i <= end,
            end == 4 * pixel_count(before),
            end <= before.len() <= usize::MAX,
            data@.len() == before.len(),
            stream == head@ + body@,
            seen == slots_before(before, i as int / 4),
            forall|j: int| 0 <= j < i ==> data@[j] == overwritten(before, stream)[j],
            forall|j: int| i <= j < before.len() ==> data@[j] == before[j],
        decreases end - i,
    {
        let lane = i % 4;
        let alpha = data[i - lane + 3];
        proof {
            lemma_slots_bound(before, i as int / 4);
            assert(alpha == before[4 * (i as int / 4) + 3]);
        }
        if lane == 3 {
            if alpha == 0 {
                seen += 1;
            }
        } else if alpha == 0 {
            match stream_byte(head, body, 3 * seen + lane) {
                Some(byte) => {
                    data[i] = byte;
                },
                None => {},
            }
        }
        i += 1;
    }
    assert(data@ =~= overwritten(before, stream));
}

/// Repeats `pattern` over all lanes of `data`. An empty pattern changes
/// nothing.
pub fn tile_lanes(data: &mut Vec<u8>, pattern: &[u8])
    ensures
        final(data)@ == tiled(old(data)@, pattern@),
{
    let ghost before = data@;
    let end = data.len() / 4 * 4;
    let period = pattern.len();
    if period == 0 {
        assert(data@ =~= tiled(before, pattern@));
        return ;
    }
    let mut i: usize = 0;
    let mut seen: usize = 0;
    while i < end
        invariant
            i <= end,
            end == 4 * pixel_count(before),
            end <= before.len() <= usize::MAX,
            data@.len() == before.len(),
            period == pattern@.len(),
            period > 0,
            seen == slots_before(before, i as int / 4),
            forall|j: int| 0 <= j < i ==> data@[j] == tiled(before, pattern@)[j],
            forall|j: int| i <= j < before.len() ==> data@[j] == before[j],
        decreases end - i,
    {
        let lane = i % 4;
        let alpha = data[i - lane + 3];
        proof {
            lemma_slots_bound(before, i as int / 4);
            assert(alpha == before[4 * (i as int / 4) + 3]);
        }
        if lane == 3 {
            if alpha == 0 {
                seen += 1;
            }
        } else if alpha == 0 {
            data[i] = pattern[(3 * seen + lane) % period];
        }
        i += 1;
    }
    assert(data@ =~= tiled(before, pattern@));
}

/// Sets the alpha byte of every pixel of `data` to 255.
pub fn set_opaque(data: &mut Vec<u8>)
    ensures
        final(data)@ == opaque(old(data)@),
{
    let ghost before = data@;
    let n = data.len() / 4;
    let mut p: usize = 0;
    while p < n
        invariant
            p <= n,
            n == pixel_count(before),
            4 * n <= before.len() <= usize::MAX,
            data@.len() == before.len(),
            forall|j: int| 0 <= j < 4 * p ==> data@[j] == opaque(before)[j],
            forall|j: int| 4 * p <= j < before.len() ==> data@[j] == before[j],
        decreases n - p,
    {
        data[4 * p + 3] = 255;
        p += 1;
    }
    assert(data@ =~= opaque(before));
}

/// Copies the colour bytes of every whole pixel of `data`, leaving the alpha
/// bytes out.
pub fn strip_alpha(data: &[u8]) -> (out: Vec<u8>)
    ensures
        out@ == colours(data@),
{
    let n = data.len() / 4;
    let mut p: usize = 0;
    let mut out: Vec<u8> = Vec::new();
    while p < n
        invariant
            p <= n,
            n == pixel_count(data@),
            4 * n <= data@.len() <= usize::MAX,
            out@.len() == 3 * p,
            forall|k: int| 0 <= k < 3 * p ==> out@[k] == data@[4 * (k / 3) + k % 3],
        decreases n - p,
    {
        let base = 4 * p;
        out.push(data[base]);
        out.push(data[base + 1]);
        out.push(data[base + 2]);
        p += 1;
    }
    assert(out@ =~= colours(data@));
    out
}

} // verus!
