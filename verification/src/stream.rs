//! Chunked content streaming: cutting file content into bounded-size chunks,
//! and the cursor state a lazy, non-restartable stream of those chunks keeps.
//!
//! Streaming works pull by pull: the consumer of a stream reads up to
//! [`CHUNK_SIZE`] bytes at the current offset, hands the outcome to
//! [`stream_step`], and relays the step it answers. The cursor only advances
//! on a pull, which bounds memory and gives backpressure whatever the file's
//! size.

use vstd::prelude::*;

use crate::models::ServeError;

verus! {

/// How many bytes one chunk holds at most: large enough to amortize one
/// system call per chunk, small enough to bound the memory a stream pins.
pub const CHUNK_SIZE: usize = 1024 * 500;

/// How many chunks content of `n` bytes yields with chunk size `k`: the
/// number of whole chunks of `k` bytes, plus one shorter chunk for what
/// remains. Zero-size content yields no chunk at all.
pub open spec fn num_chunks(n: nat, k: nat) -> nat
    recommends
        k > 0,
    decreases n,
{
    if k == 0 || n == 0 {
        0
    } else if n <= k {
        1
    } else {
        1 + num_chunks((n - k) as nat, k)
    }
}

/// [`num_chunks`] is the ceiling of `n / k`.
pub proof fn lemma_num_chunks_is_ceiling(n: nat, k: nat)
    requires
        k > 0,
    ensures
        num_chunks(n, k) == (n + k - 1) as nat / k,
    decreases n,
{
    if n == 0 {
        vstd::arithmetic::div_mod::lemma_fundamental_div_mod_converse(
            (n + k - 1) as int,
            k as int,
            0,
            (k - 1) as int,
        );
    } else if n <= k {
        vstd::arithmetic::div_mod::lemma_fundamental_div_mod_converse(
            (n + k - 1) as int,
            k as int,
            1,
            (n - 1) as int,
        );
    } else {
        lemma_num_chunks_is_ceiling((n - k) as nat, k);
        let q = (n - 1) as int / k as int;
        let r = (n - 1) as int % k as int;
        vstd::arithmetic::div_mod::lemma_fundamental_div_mod((n - 1) as int, k as int);
        vstd::arithmetic::div_mod::lemma_mod_bound((n - 1) as int, k as int);
        assert((q + 1) * k == q * k + k) by (nonlinear_arith);
        vstd::arithmetic::div_mod::lemma_fundamental_div_mod_converse(
            (n + k - 1) as int,
            k as int,
            q + 1,
            r,
        );
    }
}

/// The chunks content `data` is cut into with chunk size `k`: whole chunks of
/// `k` bytes off the front, and what remains, if anything, as one last
/// shorter chunk.
pub open spec fn chunk_seqs(data: Seq<u8>, k: nat) -> Seq<Seq<u8>>
    recommends
        k > 0,
    decreases data.len(),
{
    if k == 0 || data.len() == 0 {
        Seq::empty()
    } else if data.len() <= k {
        seq![data]
    } else {
        seq![data.subrange(0, k as int)] + chunk_seqs(data.skip(k as int), k)
    }
}

/// The byte sequences a vector of chunks holds.
pub open spec fn chunk_views(chunks: Seq<Vec<u8>>) -> Seq<Seq<u8>> {
    chunks.map_values(|c: Vec<u8>| c@)
}

/// Streaming content of `n` bytes yields exactly [`num_chunks`]`(n, k)`
/// chunks.
pub proof fn lemma_chunk_seqs_count(data: Seq<u8>, k: nat)
    requires
        k > 0,
    ensures
        chunk_seqs(data, k).len() == num_chunks(data.len(), k),
    decreases data.len(),
{
    if data.len() > k {
        lemma_chunk_seqs_count(data.skip(k as int), k);
    }
}

/// The round trip of streaming: concatenating all emitted chunks reproduces
/// the content's exact original bytes.
pub proof fn lemma_chunk_seqs_flatten(data: Seq<u8>, k: nat)
    requires
        k > 0,
    ensures
        chunk_seqs(data, k).flatten() == data,
    decreases data.len(),
{
    if data.len() == 0 {
        assert(chunk_seqs(data, k).flatten() =~= data);
    } else if data.len() <= k {
        let cs = chunk_seqs(data, k);
        assert(cs.drop_first() =~= Seq::<Seq<u8>>::empty());
        assert(cs.flatten() == cs.first() + cs.drop_first().flatten());
        assert(cs.flatten() =~= data);
    } else {
        lemma_chunk_seqs_flatten(data.skip(k as int), k);
        let cs = chunk_seqs(data, k);
        assert(cs.drop_first() =~= chunk_seqs(data.skip(k as int), k));
        assert(cs.flatten() == cs.first() + cs.drop_first().flatten());
        assert(cs.flatten() =~= data);
    }
}

/// Every chunk but the last holds exactly `k` bytes; the last holds between
/// one byte and `k`.
pub proof fn lemma_chunk_seqs_sizes(data: Seq<u8>, k: nat)
    requires
        k > 0,
    ensures
        forall|i: int|
            0 <= i < chunk_seqs(data, k).len() - 1 ==> #[trigger] chunk_seqs(data, k)[i].len()
                == k,
        chunk_seqs(data, k).len() > 0 ==> 0 < chunk_seqs(data, k).last().len() <= k,
    decreases data.len(),
{
    if data.len() > k {
        lemma_chunk_seqs_sizes(data.skip(k as int), k);
        let cs = chunk_seqs(data, k);
        let rest = chunk_seqs(data.skip(k as int), k);
        assert(rest.len() > 0);
        assert(cs.last() == rest.last());
        assert forall|i: int| 0 <= i < cs.len() - 1 implies #[trigger] cs[i].len() == k by {
            if i > 0 {
                assert(cs[i] == rest[i - 1]);
            }
        }
    }
}

/// Streaming empty content yields no chunks at all.
pub proof fn lemma_empty_content_streams_no_chunks(k: nat)
    requires
        k > 0,
    ensures
        chunk_seqs(Seq::<u8>::empty(), k) == Seq::<Seq<u8>>::empty(),
        num_chunks(0, k) == 0,
{
}

/// Cuts `data` into chunks of at most `chunk_size` bytes: whole chunks off
/// the front and one shorter last chunk for any remainder.
pub fn chunk_bytes(data: &Vec<u8>, chunk_size: usize) -> (chunks: Vec<Vec<u8>>)
    requires
        chunk_size > 0,
    ensures
        chunk_views(chunks@) == chunk_seqs(data@, chunk_size as nat),
        chunks@.len() == num_chunks(data@.len(), chunk_size as nat),
{
    let n = data.len();
    let k = chunk_size;
    let mut chunks: Vec<Vec<u8>> = Vec::new();
    let mut pos: usize = 0;
    proof {
        assert(data@.skip(0) =~= data@);
        assert(chunk_views(chunks@) =~= Seq::<Seq<u8>>::empty());
    }
    while pos < n
        invariant
            pos <= n == data@.len(),
            k == chunk_size > 0,
            chunk_seqs(data@, k as nat) =~= chunk_views(chunks@) + chunk_seqs(
                data@.skip(pos as int),
                k as nat,
            ),
        decreases n - pos,
    {
        let ghost old_views = chunk_views(chunks@);
        let ghost tail = data@.skip(pos as int);
        let end = if n - pos > k {
            pos + k
        } else {
            n
        };
        let chunk = vstd::slice::slice_to_vec(vstd::slice::slice_subrange(data.as_slice(), pos, end));
        proof {
            assert(chunk@ =~= tail.subrange(0, end - pos));
        }
        chunks.push(chunk);
        proof {
            assert(chunk_views(chunks@) =~= old_views.push(chunk@));
            if tail.len() <= k as nat {
                assert(chunk@ =~= tail);
                assert(chunk_seqs(tail, k as nat) == seq![tail]);
                assert(data@.skip(n as int) =~= Seq::<u8>::empty());
                assert(old_views + chunk_seqs(tail, k as nat) =~= old_views.push(tail));
                assert(chunk_views(chunks@) + chunk_seqs(data@.skip(end as int), k as nat)
                    =~= old_views + chunk_seqs(tail, k as nat));
            } else {
                assert(chunk@ =~= tail.subrange(0, k as int));
                assert(tail.skip(k as int) =~= data@.skip(pos + k));
                assert(chunk_seqs(tail, k as nat) == seq![tail.subrange(0, k as int)] + chunk_seqs(
                    tail.skip(k as int),
                    k as nat,
                ));
                assert(old_views + chunk_seqs(tail, k as nat) =~= old_views.push(chunk@)
                    + chunk_seqs(data@.skip(end as int), k as nat));
            }
        }
        pos = end;
    }
    proof {
        assert(data@.skip(n as int) =~= Seq::<u8>::empty());
        assert(chunk_views(chunks@) + chunk_seqs(data@.skip(n as int), k as nat) =~= chunk_views(
            chunks@,
        ));
        lemma_chunk_seqs_count(data@, k as nat);
        assert(chunks@.len() == chunk_views(chunks@).len());
    }
    chunks
}

/// The state of one in-progress content stream: the content's byte length as
/// captured when the stream was opened, and how many bytes have been emitted
/// so far. One cursor belongs to exactly one stream; it never restarts.
#[derive(Debug)]
pub struct StreamCursor {
    pub total_len: u64,
    pub bytes_emitted: u64,
}

/// One answer of the stream to a pull: the next chunk of content, the end of
/// the sequence, or a terminal read failure.
pub enum StreamStep {
    Chunk(Vec<u8>),
    End,
    Failed(ServeError),
}

impl StreamCursor {
    /// A cursor at the start of content of `total_len` bytes.
    pub fn new(total_len: u64) -> (c: Self)
        ensures
            c.total_len == total_len,
            c.bytes_emitted == 0,
    {
        StreamCursor { total_len, bytes_emitted: 0 }
    }

    /// How many bytes the stream still owes: the total captured at open time
    /// less what was emitted, floored at zero in case the underlying content
    /// shrank while streaming.
    pub open spec fn remaining(&self) -> int {
        if self.bytes_emitted <= self.total_len {
            self.total_len - self.bytes_emitted
        } else {
            0
        }
    }

    /// The bounds a consumer may size buffers by: at least zero bytes to
    /// come, at most the remaining length. The upper bound is approximate if
    /// the underlying content changes while streaming.
    pub fn size_hint(&self) -> (r: (usize, Option<usize>))
        requires
            self.total_len <= usize::MAX,
        ensures
            r.0 == 0,
            r.1 matches Some(h) && h == self.remaining(),
    {
        let rem = if self.bytes_emitted <= self.total_len {
            self.total_len - self.bytes_emitted
        } else {
            0
        };
        (0, Some(rem as usize))
    }
}

/// Advances a stream by one pull: `read` is what the pull read at the current
/// offset, up to the chunk size, or `None` when the read failed. A non-empty
/// read becomes the next chunk and advances the cursor; an empty read ends
/// the sequence; a failed read yields one terminal failure item. The cursor
/// never moves except by the bytes of an emitted chunk.
pub fn stream_step(cursor: &mut StreamCursor, read: Option<Vec<u8>>) -> (step: StreamStep)
    requires
        old(cursor).bytes_emitted + (match read {
            Some(buf) => buf@.len() as int,
            None => 0,
        }) <= u64::MAX,
    ensures
        final(cursor).total_len == old(cursor).total_len,
        match read {
            None => step == StreamStep::Failed(ServeError::StreamReadFailure) && *final(cursor)
                == *old(cursor),
            Some(buf) => {
                if buf@.len() == 0 {
                    step == StreamStep::End && *final(cursor) == *old(cursor)
                } else {
                    step == StreamStep::Chunk(buf) && final(cursor).bytes_emitted == old(
                        cursor,
                    ).bytes_emitted + buf@.len()
                }
            },
        },
{
    match read {
        None => StreamStep::Failed(ServeError::StreamReadFailure),
        Some(buf) => {
            if buf.len() == 0 {
                StreamStep::End
            } else {
                cursor.bytes_emitted = cursor.bytes_emitted + buf.len() as u64;
                StreamStep::Chunk(buf)
            }
        },
    }
}

} // verus!
