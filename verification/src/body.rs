//! Streaming message body: one byte pipe with a read half and a write
//! half, a bounded buffer for backpressure, and a half-close on the
//! write side.
//!
//! This is the decision core of the body: what a write is granted, what
//! a read yields, and when the reader sees end-of-body. The host's event
//! loop suspends a writer that was granted nothing and a reader that
//! found the pipe pending, and retries when the peer makes progress.

use vstd::prelude::*;
use vstd::slice::slice_to_vec;

verus! {

/// Error type for stream operations
#[derive(Debug, Clone)]
pub enum StreamError {
    /// The stream has been closed and cannot accept more data
    StreamClosed,
    /// The stream receiver has already been consumed and cannot be taken again
    StreamAlreadyConsumed,
    /// An I/O error occurred
    IoError(String),
}

/// The outcome of polling the read half of a body.
#[derive(Debug)]
pub enum ReadOutcome {
    /// Bytes were buffered: the next chunk, in write order.
    Data(Vec<u8>),
    /// Nothing buffered and the write side still open: poll again later.
    Pending,
    /// Nothing buffered and the write side closed: end of body.
    End,
}

/// The mathematical state of a streaming body: the unread bytes in
/// write order, the backpressure bound, and the write half-close flag.
pub ghost struct BodyModel {
    /// Bytes written and not yet read
    pub buffered: Seq<u8>,
    /// The backpressure bound: unread bytes never grow past it
    pub capacity: nat,
    /// Whether the write side is half-closed
    pub closed: bool,
}

/// How many more bytes the buffer accepts before writers must wait.
pub open spec fn free_space(m: BodyModel) -> nat {
    if m.buffered.len() <= m.capacity {
        (m.capacity - m.buffered.len()) as nat
    } else {
        0
    }
}

/// How many bytes a write of `len` bytes is granted.
pub open spec fn write_grant(m: BodyModel, len: nat) -> nat {
    if len <= free_space(m) {
        len
    } else {
        free_space(m)
    }
}

/// The state after a write: the granted prefix of `data` is appended.
pub open spec fn write_step(m: BodyModel, data: Seq<u8>) -> BodyModel {
    BodyModel {
        buffered: m.buffered + data.take(write_grant(m, data.len()) as int),
        capacity: m.capacity,
        closed: m.closed,
    }
}

/// How many bytes a read of at most `max` bytes is granted.
pub open spec fn read_grant(m: BodyModel, max: nat) -> nat {
    if max <= m.buffered.len() {
        max
    } else {
        m.buffered.len()
    }
}

/// The chunk a read of at most `max` bytes yields.
pub open spec fn read_chunk(m: BodyModel, max: nat) -> Seq<u8> {
    m.buffered.take(read_grant(m, max) as int)
}

/// The state after a read: the granted prefix is drained.
pub open spec fn read_step(m: BodyModel, max: nat) -> BodyModel {
    BodyModel {
        buffered: m.buffered.skip(read_grant(m, max) as int),
        capacity: m.capacity,
        closed: m.closed,
    }
}

/// A read that yields no data must suspend: nothing is buffered and the
/// write side is still open.
pub open spec fn read_is_pending(m: BodyModel) -> bool {
    m.buffered.len() == 0 && !m.closed
}

/// A read sees end-of-body: nothing is buffered and no more can come.
pub open spec fn read_is_end(m: BodyModel) -> bool {
    m.buffered.len() == 0 && m.closed
}

/// The default backpressure bound (16 KiB).
pub const DEFAULT_BUFFER_SIZE: usize = 16384;

/// How many bytes the chunk adapter polls for at a time (8 KiB).
pub const CHUNK_WINDOW: usize = 8192;

/// A streaming message body: the buffered bytes of one byte pipe, its
/// backpressure bound, and the write half-close flag. The read half and
/// write half are the `read`/`poll_chunk` and `write`/`shutdown` sides
/// of this state; the host gives each half to one owner.
#[derive(Debug)]
pub struct StreamingBody {
    buffered: Vec<u8>,
    buffer_size: usize,
    write_closed: bool,
}

impl StreamingBody {
    /// The mathematical state of this body.
    pub closed spec fn model(self) -> BodyModel {
        BodyModel {
            buffered: self.buffered@,
            capacity: self.buffer_size as nat,
            closed: self.write_closed,
        }
    }

    /// Create a new body with the given backpressure bound.
    pub fn new_with_buffer_size(buffer_size: usize) -> (r: Self)
        ensures
            r.model().buffered == Seq::<u8>::empty(),
            r.model().capacity == buffer_size as nat,
            !r.model().closed,
    {
        StreamingBody { buffered: Vec::new(), buffer_size, write_closed: false }
    }

    /// Create a new body with the default backpressure bound (16 KiB).
    pub fn new() -> (r: Self)
        ensures
            r.model().buffered == Seq::<u8>::empty(),
            r.model().capacity == DEFAULT_BUFFER_SIZE as nat,
            !r.model().closed,
    {
        Self::new_with_buffer_size(DEFAULT_BUFFER_SIZE)
    }

    /// Create a pre-buffered body: the complete payload is written and
    /// the write side is half-closed, so the read side yields exactly
    /// `data` followed by end-of-body.
    pub fn from_data(data: Vec<u8>) -> (r: Self)
        ensures
            r.model().buffered == data@,
            r.model().capacity == DEFAULT_BUFFER_SIZE as nat,
            r.model().closed,
    {
        StreamingBody {
            buffered: data,
            buffer_size: DEFAULT_BUFFER_SIZE,
            write_closed: true,
        }
    }

    /// Get the backpressure bound for this body.
    pub fn buffer_size(&self) -> (r: usize)
        ensures
            r as nat == self.model().capacity,
    {
        self.buffer_size
    }

    /// Write bytes into the write half.
    ///
    /// Grants at most the free buffer space; a writer granted less than
    /// it offered must suspend until the reader drains, then retry with
    /// the rest. Fails once the write side is closed.
    pub fn write(&mut self, data: &[u8]) -> (r: Result<usize, StreamError>)
        ensures
            old(self).model().closed ==> ({
                &&& r matches Err(e) && e is StreamClosed
                &&& final(self).model() == old(self).model()
            }),
            !old(self).model().closed ==> ({
                &&& r matches Ok(n) && n as nat == write_grant(old(self).model(), data@.len())
                &&& final(self).model() == write_step(old(self).model(), data@)
            }),
    {
        if self.write_closed {
            return Err(StreamError::StreamClosed);
        }
        let buffered_len = self.buffered.len();
        let free: usize = if buffered_len <= self.buffer_size {
            self.buffer_size - buffered_len
        } else {
            0
        };
        let n: usize = if data.len() <= free {
            data.len()
        } else {
            free
        };
        let granted = slice_prefix(data, n);
        self.buffered.extend_from_slice(granted);
        proof {
            assert(final(self).model().buffered =~= write_step(old(self).model(), data@).buffered);
        }
        Ok(n)
    }

    /// Half-close the write side; buffered bytes can still be read, and
    /// closing again changes nothing.
    pub fn shutdown(&mut self)
        ensures
            final(self).model().buffered == old(self).model().buffered,
            final(self).model().capacity == old(self).model().capacity,
            final(self).model().closed,
    {
        self.write_closed = true;
    }

    /// Read at most `max` bytes from the read half.
    ///
    /// Yields the oldest buffered bytes in write order; with nothing
    /// buffered, tells the reader to wait or that the body has ended.
    pub fn read(&mut self, max: usize) -> (r: ReadOutcome)
        ensures
            read_is_pending(old(self).model()) ==> (r is Pending && final(self).model() == old(
                self,
            ).model()),
            read_is_end(old(self).model()) ==> (r is End && final(self).model() == old(
                self,
            ).model()),
            old(self).model().buffered.len() > 0 ==> ({
                &&& r matches ReadOutcome::Data(v) && v@ == read_chunk(old(self).model(), max as nat)
                &&& final(self).model() == read_step(old(self).model(), max as nat)
            }),
    {
        if self.buffered.len() == 0 {
            if self.write_closed {
                return ReadOutcome::End;
            }
            return ReadOutcome::Pending;
        }
        let n: usize = if max <= self.buffered.len() {
            max
        } else {
            self.buffered.len()
        };
        let chunk = slice_to_vec(slice_prefix(self.buffered.as_slice(), n));
        let rest = slice_to_vec(slice_from(self.buffered.as_slice(), n));
        self.buffered = rest;
        proof {
            assert(chunk@ =~= read_chunk(old(self).model(), max as nat));
            assert(final(self).model().buffered =~= read_step(
                old(self).model(),
                max as nat,
            ).buffered);
        }
        ReadOutcome::Data(chunk)
    }

    /// Poll the chunk adapter built on the read half: one fixed window
    /// (8 KiB) at a time.
    pub fn poll_chunk(&mut self) -> (r: ReadOutcome)
        ensures
            read_is_pending(old(self).model()) ==> (r is Pending && final(self).model() == old(
                self,
            ).model()),
            read_is_end(old(self).model()) ==> (r is End && final(self).model() == old(
                self,
            ).model()),
            old(self).model().buffered.len() > 0 ==> ({
                &&& r matches ReadOutcome::Data(v) && v@ == read_chunk(old(self).model(), CHUNK_WINDOW as nat)
                &&& final(self).model() == read_step(old(self).model(), CHUNK_WINDOW as nat)
            }),
    {
        self.read(CHUNK_WINDOW)
    }
}

/// The first `n` bytes of a slice.
fn slice_prefix(s: &[u8], n: usize) -> (r: &[u8])
    requires
        n <= s@.len(),
    ensures
        r@ == s@.take(n as int),
{
    let r = &s[0..n];
    proof {
        assert(r@ =~= s@.take(n as int));
    }
    r
}

/// The bytes of a slice from `n` on.
fn slice_from(s: &[u8], n: usize) -> (r: &[u8])
    requires
        n <= s@.len(),
    ensures
        r@ == s@.skip(n as int),
{
    let r = &s[n..s.len()];
    proof {
        assert(r@ =~= s@.skip(n as int));
    }
    r
}

/// A pre-buffered or half-closed body never suspends its reader: while
/// bytes remain a read yields the next of them in order, and once they
/// are drained every read reports end-of-body, so the read side yields
/// exactly the buffered bytes and nothing further, ever.
pub proof fn lemma_closed_body_reads(m: BodyModel, max: nat)
    requires
        m.closed,
    ensures
        !read_is_pending(m),
        m.buffered.len() == 0 ==> read_is_end(m),
        m.buffered.len() > 0 ==> ({
            &&& read_chunk(m, max) + read_step(m, max).buffered == m.buffered
            &&& read_step(m, max).closed
        }),
{
    if m.buffered.len() > 0 {
        assert(read_chunk(m, max) + read_step(m, max).buffered =~= m.buffered);
    }
}

/// The state after a sequence of reads, one per entry of `maxes`.
pub open spec fn read_trace_state(m: BodyModel, maxes: Seq<nat>) -> BodyModel
    decreases maxes.len(),
{
    if maxes.len() == 0 {
        m
    } else {
        read_trace_state(read_step(m, maxes[0]), maxes.skip(1))
    }
}

/// The bytes a sequence of reads yields, concatenated in read order.
pub open spec fn read_trace_bytes(m: BodyModel, maxes: Seq<nat>) -> Seq<u8>
    decreases maxes.len(),
{
    if maxes.len() == 0 {
        Seq::empty()
    } else {
        read_chunk(m, maxes[0]) + read_trace_bytes(read_step(m, maxes[0]), maxes.skip(1))
    }
}

/// Over any sequence of reads from a half-closed body: the chunks
/// yielded, concatenated, are exactly the buffered bytes minus what is
/// still to come, the body stays closed, and once everything is drained
/// the reader sees end-of-body — so a pre-buffered body yields exactly
/// its payload followed by end-of-body, with no further data ever.
pub proof fn lemma_closed_body_drain_trace(m: BodyModel, maxes: Seq<nat>)
    requires
        m.closed,
    ensures
        read_trace_bytes(m, maxes) + read_trace_state(m, maxes).buffered == m.buffered,
        read_trace_state(m, maxes).closed,
        read_trace_state(m, maxes).buffered.len() == 0 ==> read_is_end(read_trace_state(m, maxes)),
    decreases maxes.len(),
{
    if maxes.len() == 0 {
        assert(read_trace_bytes(m, maxes) + m.buffered =~= m.buffered);
    } else {
        let m1 = read_step(m, maxes[0]);
        let rest = maxes.skip(1);
        assert(read_chunk(m, maxes[0]) + m1.buffered =~= m.buffered);
        lemma_closed_body_drain_trace(m1, rest);
        assert((read_chunk(m, maxes[0]) + read_trace_bytes(m1, rest)) + read_trace_state(
            m,
            maxes,
        ).buffered =~= read_chunk(m, maxes[0]) + (read_trace_bytes(m1, rest) + read_trace_state(
            m1,
            rest,
        ).buffered));
    }
}

/// Backpressure: once the unread bytes fill the buffer, a writer is
/// granted nothing and must suspend; after the reader drains, a retried
/// write is granted bytes again, exactly as many as were freed (up to
/// what the writer offers).
pub proof fn lemma_backpressure(m: BodyModel, data: Seq<u8>, max: nat)
    requires
        !m.closed,
        m.buffered.len() == m.capacity,
        0 < max,
        0 < m.capacity,
        0 < data.len(),
    ensures
        write_grant(m, data.len()) == 0,
        write_step(m, data).buffered == m.buffered,
        0 < read_grant(m, max),
        ({
            let drained = read_step(m, max);
            let retried = write_grant(drained, data.len());
            &&& retried == (if data.len() <= read_grant(m, max) {
                data.len()
            } else {
                read_grant(m, max)
            })
            &&& 0 < retried
            &&& write_step(drained, data).buffered == drained.buffered + data.take(retried as int)
        }),
{
    assert(write_step(m, data).buffered =~= m.buffered);
}

} // verus!
