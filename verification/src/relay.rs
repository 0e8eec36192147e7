//! The streaming relay: how the reader loop cuts the upstream byte
//! stream into delimiter-bounded chunks, and when the loop stops.
//!
//! The reader task repeatedly reads up to and including the next
//! delimiter byte and sends each completed buffer into the bounded
//! relay queue. Over a whole upstream stream this produces exactly the
//! chunk sequence described by `chunks_of`.

use vstd::prelude::*;

verus! {

/// The packet-boundary marker the reader loop splits the upstream
/// stream on: the ASCII dash.
pub const CHUNK_DELIMITER: u8 = 45;

/// End of the chunk that starts at `i`: one past the next occurrence of
/// `delim` at or after `i`, or the end of the stream if none follows.
pub open spec fn chunk_end(data: Seq<u8>, i: int, delim: u8) -> int
    decreases data.len() - i when 0 <= i <= data.len()
{
    if i == data.len() {
        i
    } else if data[i] == delim {
        i + 1
    } else {
        chunk_end(data, i + 1, delim)
    }
}

pub proof fn lemma_chunk_end_bounds(data: Seq<u8>, i: int, delim: u8)
    requires
        0 <= i <= data.len(),
    ensures
        i <= chunk_end(data, i, delim) <= data.len(),
        i < data.len() ==> i < chunk_end(data, i, delim),
    decreases data.len() - i,
{
    if i < data.len() && data[i] != delim {
        lemma_chunk_end_bounds(data, i + 1, delim);
    }
}

/// The delimiter-bounded chunks of `data` from position `i` on: each
/// chunk runs up to and including the next delimiter, and a final
/// delimiter-less remainder forms the last chunk.
pub open spec fn chunks_from(data: Seq<u8>, i: int, delim: u8) -> Seq<Seq<u8>>
    decreases data.len() - i when 0 <= i <= data.len()
{
    if i == data.len() {
        Seq::empty()
    } else {
        let k = chunk_end(data, i, delim);
        proof {
            lemma_chunk_end_bounds(data, i, delim);
        }
        seq![data.subrange(i, k)] + chunks_from(data, k, delim)
    }
}

/// The chunk sequence the relay emits for the upstream stream `data`.
pub open spec fn chunks_of(data: Seq<u8>, delim: u8) -> Seq<Seq<u8>> {
    chunks_from(data, 0, delim)
}

fn chunk_end_exec(data: &Vec<u8>, from: usize, delim: u8) -> (r: usize)
    requires
        from <= data@.len(),
    ensures
        r == chunk_end(data@, from as int, delim),
        from <= r <= data@.len(),
    decreases data@.len() - from,
{
    if from == data.len() {
        return from;
    }
    if data[from] == delim {
        return from + 1;
    }
    chunk_end_exec(data, from + 1, delim)
}

#[verifier::loop_isolation(false)]
fn copy_range(data: &Vec<u8>, from: usize, to: usize) -> (r: Vec<u8>)
    requires
        from <= to <= data@.len(),
    ensures
        r@ == data@.subrange(from as int, to as int),
{
    let mut r: Vec<u8> = Vec::new();
    let mut k: usize = from;
    while k < to
        invariant
            from <= k <= to,
            r@ =~= data@.subrange(from as int, k as int),
        decreases to - k,
    {
        r.push(data[k]);
        proof {
            assert(r@ =~= data@.subrange(from as int, k as int + 1));
        }
        k = k + 1;
    }
    proof {
        assert(r@ =~= data@.subrange(from as int, to as int));
    }
    r
}

/// Splits a whole upstream stream into the chunk sequence the reader
/// loop would emit for it: each chunk ends with the delimiter except
/// possibly the last.
#[verifier::loop_isolation(false)]
pub fn split_chunks(data: &Vec<u8>, delim: u8) -> (r: Vec<Vec<u8>>)
    ensures
        r.deep_view() == chunks_of(data@, delim),
{
    let mut out: Vec<Vec<u8>> = Vec::new();
    let mut i: usize = 0;
    proof {
        assert(out.deep_view() =~= Seq::<Seq<u8>>::empty());
    }
    while i < data.len()
        invariant
            0 <= i <= data@.len(),
            chunks_of(data@, delim) == out.deep_view() + chunks_from(data@, i as int, delim),
        decreases data@.len() - i,
    {
        let ghost pre = out.deep_view();
        let k = chunk_end_exec(data, i, delim);
        proof {
            lemma_chunk_end_bounds(data@, i as int, delim);
        }
        let chunk = copy_range(data, i, k);
        let ghost chunk_dv = chunk.deep_view();
        out.push(chunk);
        proof {
            assert(chunk_dv =~= data@.subrange(i as int, k as int));
            assert(out.deep_view() =~= pre.push(data@.subrange(i as int, k as int)));
            assert(chunks_from(data@, i as int, delim) == seq![
                data@.subrange(i as int, k as int),
            ] + chunks_from(data@, k as int, delim));
            assert(pre + (seq![data@.subrange(i as int, k as int)] + chunks_from(
                data@,
                k as int,
                delim,
            )) =~= out.deep_view() + chunks_from(data@, k as int, delim));
        }
        i = k;
    }
    proof {
        assert(chunks_from(data@, i as int, delim) =~= Seq::<Seq<u8>>::empty());
        assert(out.deep_view() + chunks_from(data@, i as int, delim) =~= out.deep_view());
    }
    out
}

/// Concatenating the relay's chunks gives back exactly the upstream
/// stream: the relay reorders, drops and duplicates nothing.
pub proof fn lemma_chunks_concat_from(data: Seq<u8>, i: int, delim: u8)
    requires
        0 <= i <= data.len(),
    ensures
        chunks_from(data, i, delim).flatten() == data.subrange(i, data.len() as int),
    decreases data.len() - i,
{
    if i == data.len() {
        assert(chunks_from(data, i, delim).flatten() =~= data.subrange(i, data.len() as int));
    } else {
        let k = chunk_end(data, i, delim);
        lemma_chunk_end_bounds(data, i, delim);
        lemma_chunks_concat_from(data, k, delim);
        let cs = chunks_from(data, i, delim);
        assert(cs.first() == data.subrange(i, k));
        assert(cs.drop_first() =~= chunks_from(data, k, delim));
        assert(cs.flatten() == cs.first() + cs.drop_first().flatten());
        assert(data.subrange(i, k) + data.subrange(k, data.len() as int) =~= data.subrange(
            i,
            data.len() as int,
        ));
    }
}

/// The whole-stream form of `lemma_chunks_concat_from`.
pub proof fn lemma_chunks_concat(data: Seq<u8>, delim: u8)
    ensures
        chunks_of(data, delim).flatten() == data,
{
    lemma_chunks_concat_from(data, 0, delim);
    assert(data.subrange(0, data.len() as int) =~= data);
}

/// Every chunk the relay sends is non-empty: a send happens only after
/// a read that returned at least one byte.
pub proof fn lemma_chunks_nonempty(data: Seq<u8>, i: int, delim: u8)
    requires
        0 <= i <= data.len(),
    ensures
        forall|t: int|
            0 <= t < chunks_from(data, i, delim).len() ==> chunks_from(
                data,
                i,
                delim,
            )[t].len() > 0,
    decreases data.len() - i,
{
    if i < data.len() {
        let k = chunk_end(data, i, delim);
        lemma_chunk_end_bounds(data, i, delim);
        lemma_chunks_nonempty(data, k, delim);
        let cs = chunks_from(data, i, delim);
        assert forall|t: int| 0 <= t < cs.len() implies cs[t].len() > 0 by {
            if t == 0 {
                assert(cs[0] == data.subrange(i, k));
            } else {
                assert(cs[t] == chunks_from(data, k, delim)[t - 1]);
            }
        }
    }
}

pub proof fn lemma_chunk_end_shape(data: Seq<u8>, i: int, delim: u8)
    requires
        0 <= i <= data.len(),
    ensures
        forall|j: int| i <= j < chunk_end(data, i, delim) - 1 ==> data[j] != delim,
        chunk_end(data, i, delim) < data.len() ==> data[chunk_end(data, i, delim) - 1] == delim,
    decreases data.len() - i,
{
    if i < data.len() && data[i] != delim {
        lemma_chunk_end_shape(data, i + 1, delim);
    }
}

/// The delimiter really bounds the chunks: inside a chunk it occurs
/// only as the final byte, and every chunk except possibly the last
/// ends with it.
pub proof fn lemma_chunks_delimiter_bounded(data: Seq<u8>, i: int, delim: u8)
    requires
        0 <= i <= data.len(),
    ensures
        forall|t: int, b: int|
            0 <= t < chunks_from(data, i, delim).len() && 0 <= b < chunks_from(
                data,
                i,
                delim,
            )[t].len() - 1 ==> chunks_from(data, i, delim)[t][b] != delim,
        forall|t: int|
            0 <= t < chunks_from(data, i, delim).len() - 1 ==> (#[trigger] chunks_from(
                data,
                i,
                delim,
            )[t]).last() == delim,
    decreases data.len() - i,
{
    if i < data.len() {
        let k = chunk_end(data, i, delim);
        lemma_chunk_end_bounds(data, i, delim);
        lemma_chunk_end_shape(data, i, delim);
        lemma_chunks_delimiter_bounded(data, k, delim);
        let cs = chunks_from(data, i, delim);
        let rest = chunks_from(data, k, delim);
        assert forall|t: int, b: int|
            0 <= t < cs.len() && 0 <= b < cs[t].len() - 1 implies cs[t][b] != delim by {
            if t == 0 {
                assert(cs[0] == data.subrange(i, k));
                assert(data[i + b] != delim);
            } else {
                assert(cs[t] == rest[t - 1]);
            }
        }
        assert forall|t: int| 0 <= t < cs.len() - 1 implies (#[trigger] cs[t]).last()
            == delim by {
            if t == 0 {
                assert(rest.len() > 0);
                assert(k < data.len());
                assert(cs[0] == data.subrange(i, k));
                assert(cs[0].last() == data[k - 1]);
            } else {
                assert(cs[t] == rest[t - 1]);
                assert(t - 1 < rest.len() - 1);
            }
        }
    }
}

/// One observable event in the reader loop.
pub enum RelayEvent {
    /// A read from the process output completed: whether it succeeded,
    /// and how many bytes it appended to the buffer.
    Read { ok: bool, length: usize },
    /// A send into the relay queue completed: whether the consumer side
    /// was still open.
    Sent { ok: bool },
}

/// Whether the reader loop goes on after an event. It stops on a failed
/// read, on a read of length zero (upstream end-of-stream), and on a
/// failed send (the HTTP consumer disconnected); any read error is
/// treated exactly like a clean end-of-stream.
pub fn relay_continues(e: &RelayEvent) -> (r: bool)
    ensures
        r == match *e {
            RelayEvent::Read { ok, length } => ok && length > 0,
            RelayEvent::Sent { ok } => ok,
        },
{
    match e {
        RelayEvent::Read { ok, length } => *ok && *length > 0,
        RelayEvent::Sent { ok } => *ok,
    }
}

} // verus!
