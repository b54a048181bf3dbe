//! Bounded capture of a child's output stream. The stream is always read
//! to its end, so the child never blocks on a full pipe, but only a bounded
//! prefix is kept.
use vstd::prelude::*;

verus! {

/// The size of the chunks in which a stream is read.
pub const CHUNK_BYTES: usize = 65536;

/// The shorter of two lengths.
pub open spec fn min(a: int, b: int) -> int {
    if a <= b {
        a
    } else {
        b
    }
}

/// Keeps the part of `chunk` that still fits below `limit + 1` bytes of
/// `output`: one byte past the limit marks the stream as oversize.
pub fn keep_limited(output: &mut Vec<u8>, chunk: &[u8], limit: usize)
    requires
        old(output)@.len() <= limit + 1,
    ensures
        final(output)@ == (old(output)@ + chunk@).take(
            min((old(output)@ + chunk@).len() as int, limit + 1),
        ),
{
    let room: usize = if output.len() <= limit {
        let spare = limit - output.len();
        if spare == usize::MAX {
            usize::MAX
        } else {
            spare + 1
        }
    } else {
        0
    };
    let take: usize = if chunk.len() < room { chunk.len() } else { room };
    let mut i: usize = 0;
    let ghost start = output@;
    while i < take
        invariant
            start == old(output)@,
            take <= chunk@.len(),
            i <= take,
            output@ == start + chunk@.take(i as int),
        decreases take - i,
    {
        output.push(chunk[i]);
        proof {
            assert(chunk@.take(i + 1) =~= chunk@.take(i as int).push(chunk@[i as int]));
        }
        i = i + 1;
    }
    proof {
        assert(output@ =~= (start + chunk@).take(min((start + chunk@).len() as int, limit + 1)));
    }
}

/// Reads `source` to its end in chunks and keeps at most `limit + 1`
/// bytes: the extra byte tells an oversize stream from one of exactly
/// `limit` bytes.
pub fn read_limited(source: &[u8], limit: usize) -> (out: Vec<u8>)
    ensures
        out@ == source@.take(min(source@.len() as int, limit + 1)),
{
    let mut output: Vec<u8> = Vec::new();
    let mut at: usize = 0;
    while at < source.len()
        invariant
            at <= source@.len(),
            output@ == source@.take(at as int).take(min(at as int, limit + 1)),
        decreases source@.len() - at,
    {
        let end: usize = if source.len() - at > CHUNK_BYTES { at + CHUNK_BYTES } else { source.len() };
        let chunk = slice_range(source, at, end);
        let ghost before = output@;
        keep_limited(&mut output, chunk.as_slice(), limit);
        proof {
            assert(source@.take(at as int).take(min(at as int, limit + 1)) + chunk@ =~= before + chunk@);
            assert(source@.take(end as int) =~= source@.take(at as int) + chunk@);
            if at as int <= limit + 1 {
                assert(before =~= source@.take(at as int));
                assert(output@ =~= source@.take(end as int).take(min(end as int, limit + 1)));
            } else {
                assert(before =~= source@.take(limit + 1));
                assert(output@ =~= source@.take(end as int).take(min(end as int, limit + 1)));
            }
        }
        at = end;
    }
    proof {
        assert(source@.take(at as int) =~= source@);
    }
    output
}

/// `source[from..to]` as a vector.
fn slice_range(source: &[u8], from: usize, to: usize) -> (out: Vec<u8>)
    requires
        from <= to <= source@.len(),
    ensures
        out@ == source@.subrange(from as int, to as int),
{
    let mut out: Vec<u8> = Vec::new();
    let mut i = from;
    while i < to
        invariant
            from <= i <= to <= source@.len(),
            out@ == source@.subrange(from as int, i as int),
        decreases to - i,
    {
        out.push(source[i]);
        proof {
            assert(source@.subrange(from as int, i + 1) =~= source@.subrange(from as int, i as int).push(
                source@[i as int],
            ));
        }
        i = i + 1;
    }
    out
}

/// Keeps what of `chunk` fits below `max` bytes of `kept`, and reports
/// whether any of it had to be dropped.
pub fn drain_chunk(kept: &mut Vec<u8>, chunk: &[u8], max: usize) -> (dropped: bool)
    requires
        old(kept)@.len() <= max,
    ensures
        final(kept)@ == (old(kept)@ + chunk@).take(min((old(kept)@ + chunk@).len() as int, max as int)),
        dropped == ((old(kept)@ + chunk@).len() > max),
{
    let room: usize = max - kept.len();
    let take: usize = if chunk.len() < room { chunk.len() } else { room };
    let ghost start = kept@;
    let mut i: usize = 0;
    while i < take
        invariant
            start == old(kept)@,
            take <= chunk@.len(),
            i <= take,
            kept@ == start + chunk@.take(i as int),
        decreases take - i,
    {
        kept.push(chunk[i]);
        proof {
            assert(chunk@.take(i + 1) =~= chunk@.take(i as int).push(chunk@[i as int]));
        }
        i = i + 1;
    }
    proof {
        assert(kept@ =~= (start + chunk@).take(min((start + chunk@).len() as int, max as int)));
    }
    take < chunk.len()
}

/// Reads `source` to its end in chunks, keeping at most `max` bytes, and
/// reports whether anything was dropped.
pub fn drain_bounded(source: &[u8], max: usize) -> (r: (Vec<u8>, bool))
    ensures
        r.0@ == source@.take(min(source@.len() as int, max as int)),
        r.1 == (source@.len() > max),
{
    let mut kept: Vec<u8> = Vec::new();
    let mut truncated = false;
    let mut at: usize = 0;
    while at < source.len()
        invariant
            at <= source@.len(),
            kept@ == source@.take(at as int).take(min(at as int, max as int)),
            truncated == (at > max),
        decreases source@.len() - at,
    {
        let end: usize = if source.len() - at > CHUNK_BYTES { at + CHUNK_BYTES } else { source.len() };
        let chunk = slice_range(source, at, end);
        let ghost before = kept@;
        let dropped = drain_chunk(&mut kept, chunk.as_slice(), max);
        truncated = truncated || dropped;
        proof {
            assert(source@.take(end as int) =~= source@.take(at as int) + chunk@);
            if at <= max {
                assert(before =~= source@.take(at as int));
                assert(kept@ =~= source@.take(end as int).take(min(end as int, max as int)));
            } else {
                assert(before =~= source@.take(max as int));
                assert(kept@ =~= source@.take(end as int).take(min(end as int, max as int)));
            }
        }
        at = end;
    }
    proof {
        assert(source@.take(at as int) =~= source@);
    }
    (kept, truncated)
}

} // verus!
