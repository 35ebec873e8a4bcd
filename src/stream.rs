//! The byte ingestion buffer: an append-only stream with a read cursor.
use vstd::prelude::*;
use crate::header::{decode_at, header_of, PrimaryHeader, HEADER_LEN};

verus! {

/// The bytes received so far and a cursor into them. Bytes before the
/// cursor have been consumed and are never read again.
pub struct ByteStream {
    bytes: Vec<u8>,
    cursor: usize,
}

impl ByteStream {
    /// The cursor lies within the received bytes.
    pub closed spec fn wf(&self) -> bool {
        self.cursor <= self.bytes@.len()
    }

    /// The bytes at or after the cursor, in arrival order.
    pub closed spec fn pending(&self) -> Seq<u8> {
        self.bytes@.subrange(self.cursor as int, self.bytes@.len() as int)
    }

    /// How many bytes the cursor has moved past.
    pub closed spec fn consumed(&self) -> nat {
        self.cursor as nat
    }

    /// An empty stream.
    pub fn new() -> (r: ByteStream)
        ensures
            r.wf(),
            r.pending() == Seq::<u8>::empty(),
            r.consumed() == 0,
    {
        let r = ByteStream { bytes: Vec::new(), cursor: 0 };
        assert(r.pending() =~= Seq::<u8>::empty());
        r
    }

    /// Appends `chunk` after the bytes already received.
    pub fn ingest(&mut self, chunk: &[u8])
        requires
            old(self).wf(),
        ensures
            final(self).wf(),
            final(self).pending() == old(self).pending() + chunk@,
            final(self).consumed() == old(self).consumed(),
    {
        let ghost start = self.bytes@;
        let mut i: usize = 0;
        while i < chunk.len()
            invariant
                i <= chunk@.len(),
                self.cursor == old(self).cursor,
                self.bytes@ == start + chunk@.subrange(0, i as int),
                start == old(self).bytes@,
                old(self).wf(),
            decreases chunk@.len() - i,
        {
            self.bytes.push(chunk[i]);
            i = i + 1;
            assert(self.bytes@ =~= start + chunk@.subrange(0, i as int));
        }
        assert(chunk@.subrange(0, i as int) =~= chunk@);
        assert(self.pending() =~= old(self).pending() + chunk@);
    }

    /// Number of bytes at or after the cursor.
    pub fn remaining(&self) -> (r: usize)
        requires
            self.wf(),
        ensures
            r == self.pending().len(),
    {
        self.bytes.len() - self.cursor
    }

    /// A copy of the `length` bytes that start `offset` bytes after the
    /// cursor, or `None` when fewer bytes than that remain.
    pub fn peek(&self, offset: usize, length: usize) -> (r: Option<Vec<u8>>)
        requires
            self.wf(),
        ensures
            offset + length <= self.pending().len() <==> r.is_some(),
            r matches Some(v) ==> v@ == self.pending().subrange(
                offset as int,
                offset + length,
            ),
    {
        let rem = self.bytes.len() - self.cursor;
        if offset > rem || length > rem - offset {
            return None;
        }
        let start = self.cursor + offset;
        let end = start + length;
        let mut out: Vec<u8> = Vec::new();
        let mut i: usize = 0;
        while i < length
            invariant
                self.wf(),
                end <= self.bytes@.len(),
                end == start + length,
                start == self.cursor + offset,
                i <= length,
                out@ == self.bytes@.subrange(start as int, start + i),
            decreases length - i,
        {
            out.push(self.bytes[start + i]);
            i = i + 1;
            assert(out@ =~= self.bytes@.subrange(start as int, start + i));
        }
        assert(out@ =~= self.pending().subrange(offset as int, offset + length));
        Some(out)
    }

    /// Moves the cursor `n` bytes forward and returns `true`; when fewer than
    /// `n` bytes remain, leaves the stream as it is and returns `false`.
    pub fn advance(&mut self, n: usize) -> (r: bool)
        requires
            old(self).wf(),
        ensures
            final(self).wf(),
            r == (n <= old(self).pending().len()),
            r ==> final(self).pending() == old(self).pending().subrange(
                n as int,
                old(self).pending().len() as int,
            ),
            r ==> final(self).consumed() == old(self).consumed() + n,
            !r ==> *final(self) == *old(self),
    {
        if n > self.bytes.len() - self.cursor {
            return false;
        }
        self.cursor = self.cursor + n;
        assert(self.pending() =~= old(self).pending().subrange(
            n as int,
            old(self).pending().len() as int,
        ));
        true
    }

    /// Decodes the Primary Header held by the first 6 pending bytes.
    pub fn header_at_cursor(&self) -> (r: PrimaryHeader)
        requires
            self.wf(),
            self.pending().len() >= HEADER_LEN,
        ensures
            r == header_of(self.pending()),
            r.wf(),
    {
        let r = decode_at(self.bytes.as_slice(), self.cursor);
        assert(self.bytes@.subrange(self.cursor as int, self.cursor + HEADER_LEN)
            =~= self.pending().subrange(0, HEADER_LEN as int));
        r
    }
}

} // verus!
