//! The packet extractor: decodes the header at the read position and hands
//! out one complete packet at a time.
use vstd::prelude::*;
use crate::header::{header_of, PrimaryHeader, HEADER_LEN};
use crate::stream::ByteStream;

verus! {

/// Length of the packet that starts `s`, as its header declares it.
pub open spec fn next_packet_len(s: Seq<u8>) -> nat
    recommends
        s.len() >= HEADER_LEN,
{
    header_of(s).spec_packet_len()
}

/// The header at the start of `s`, when `s` holds all 6 of its bytes.
pub open spec fn header_ahead(s: Seq<u8>) -> Option<PrimaryHeader> {
    if s.len() >= HEADER_LEN {
        Some(header_of(s))
    } else {
        None
    }
}

/// `s` starts with a complete packet: a header and the whole data field it declares.
pub open spec fn has_packet(s: Seq<u8>) -> bool {
    s.len() >= HEADER_LEN && s.len() >= next_packet_len(s)
}

/// The complete packets at the start of `s`, in stream order.
pub open spec fn packets_of(s: Seq<u8>) -> Seq<Seq<u8>>
    decreases s.len(),
{
    if has_packet(s) {
        let n = next_packet_len(s);
        seq![s.subrange(0, n as int)] + packets_of(s.subrange(n as int, s.len() as int))
    } else {
        Seq::empty()
    }
}

/// What is left of `s` once every complete packet at its start is taken.
pub open spec fn leftover(s: Seq<u8>) -> Seq<u8>
    decreases s.len(),
{
    if has_packet(s) {
        let n = next_packet_len(s);
        leftover(s.subrange(n as int, s.len() as int))
    } else {
        s
    }
}

/// Bytes received after a whole header leave that header, and so the
/// declared packet length, unchanged; the packet at the front is complete
/// exactly once the bytes reach that length.
pub proof fn lemma_resumption(s: Seq<u8>, t: Seq<u8>)
    requires
        s.len() >= HEADER_LEN,
    ensures
        header_of(s + t) == header_of(s),
        next_packet_len(s + t) == next_packet_len(s),
        has_packet(s + t) == (s.len() + t.len() >= next_packet_len(s)),
{
    let u = s + t;
    assert(u[0] == s[0] && u[1] == s[1] && u[2] == s[2] && u[3] == s[3]);
    assert(u[4] == s[4] && u[5] == s[5]);
}

/// Taking packets between chunks changes nothing: the packets taken from
/// `s1`, then those taken from its leftover with `s2` appended, are the
/// packets of `s1 + s2`, and the same tail is left over.
pub proof fn lemma_chunked_feed(s1: Seq<u8>, s2: Seq<u8>)
    ensures
        packets_of(s1) + packets_of(leftover(s1) + s2) == packets_of(s1 + s2),
        leftover(leftover(s1) + s2) == leftover(s1 + s2),
    decreases s1.len(),
{
    if has_packet(s1) {
        let n = next_packet_len(s1);
        let rest = s1.subrange(n as int, s1.len() as int);
        lemma_resumption(s1, s2);
        assert((s1 + s2).subrange(0, n as int) =~= s1.subrange(0, n as int));
        assert((s1 + s2).subrange(n as int, (s1 + s2).len() as int) =~= rest + s2);
        lemma_chunked_feed(rest, s2);
        assert(packets_of(s1) + packets_of(leftover(s1) + s2) =~= seq![s1.subrange(0, n as int)]
            + (packets_of(rest) + packets_of(leftover(rest) + s2)));
    } else {
        assert(packets_of(s1) + packets_of(leftover(s1) + s2) =~= packets_of(s1 + s2));
    }
}

/// Where the extractor stands.
#[derive(Clone, Copy, Debug, PartialEq, Eq, Structural)]
pub enum ExtractorState {
    /// No header is cached, and at least 6 bytes wait at the cursor.
    Empty,
    /// The header at the cursor is decoded and cached; its packet is not taken yet.
    HeaderReady,
    /// Fewer than 6 bytes wait at the cursor; more may be received later.
    Exhausted,
}

/// Splits a byte stream into CCSDS space packets. Each packet is handed out
/// as an owned copy of its bytes, so it stays valid whatever the extractor
/// does next.
pub struct PacketExtractor {
    stream: ByteStream,
    current: Option<PrimaryHeader>,
}

impl PacketExtractor {
    /// The stream is well formed, and a cached header is the one at the cursor.
    pub closed spec fn wf(&self) -> bool {
        &&& self.stream.wf()
        &&& self.current matches Some(h) ==> self.stream.pending().len() >= HEADER_LEN
            && h == header_of(self.stream.pending())
    }

    /// The bytes received and not yet handed out in a packet.
    pub closed spec fn pending(&self) -> Seq<u8> {
        self.stream.pending()
    }

    /// The header cached at the cursor, if any.
    pub closed spec fn cached(&self) -> Option<PrimaryHeader> {
        self.current
    }

    /// The state, as the cache and the pending bytes determine it.
    pub open spec fn state_of(&self) -> ExtractorState {
        if self.cached() is Some {
            ExtractorState::HeaderReady
        } else if self.pending().len() < HEADER_LEN {
            ExtractorState::Exhausted
        } else {
            ExtractorState::Empty
        }
    }

    /// An extractor with no bytes yet.
    pub fn new() -> (r: PacketExtractor)
        ensures
            r.wf(),
            r.pending() == Seq::<u8>::empty(),
            r.cached() == None::<PrimaryHeader>,
    {
        PacketExtractor { stream: ByteStream::new(), current: None }
    }

    /// The current state.
    pub fn state(&self) -> (r: ExtractorState)
        requires
            self.wf(),
        ensures
            r == self.state_of(),
    {
        if self.current.is_some() {
            ExtractorState::HeaderReady
        } else if self.stream.remaining() < HEADER_LEN {
            ExtractorState::Exhausted
        } else {
            ExtractorState::Empty
        }
    }

    /// Number of bytes received and not yet handed out in a packet.
    pub fn remaining(&self) -> (r: usize)
        requires
            self.wf(),
        ensures
            r == self.pending().len(),
    {
        self.stream.remaining()
    }

    /// Appends `bytes` to the stream. When the extractor was exhausted and
    /// now holds a whole header, that header is decoded and cached.
    pub fn receive(&mut self, bytes: &[u8])
        requires
            old(self).wf(),
        ensures
            final(self).wf(),
            final(self).pending() == old(self).pending() + bytes@,
            final(self).cached() == if old(self).state_of() == ExtractorState::Exhausted {
                header_ahead(final(self).pending())
            } else {
                old(self).cached()
            },
    {
        let was_exhausted = self.current.is_none() && self.stream.remaining() < HEADER_LEN;
        self.stream.ingest(bytes);
        if was_exhausted && self.stream.remaining() >= HEADER_LEN {
            self.current = Some(self.stream.header_at_cursor());
        }
    }

    /// The header at the cursor, decoded once and then cached; `None` while
    /// fewer than 6 bytes wait. The cursor does not move.
    pub fn current_header(&mut self) -> (r: Option<PrimaryHeader>)
        requires
            old(self).wf(),
        ensures
            final(self).wf(),
            r == header_ahead(old(self).pending()),
            final(self).pending() == old(self).pending(),
            final(self).cached() == r,
    {
        if self.current.is_none() && self.stream.remaining() >= HEADER_LEN {
            self.current = Some(self.stream.header_at_cursor());
        }
        self.current
    }

    /// Takes the packet at the cursor: the header and the data field it
    /// declares, `6 + length_field + 1` bytes in all. When fewer bytes wait,
    /// returns `None` and leaves the cursor where it was.
    pub fn pull_packet(&mut self) -> (r: Option<Vec<u8>>)
        requires
            old(self).wf(),
        ensures
            final(self).wf(),
            r.is_some() == has_packet(old(self).pending()),
            r matches Some(p) ==> {
                let n = next_packet_len(old(self).pending());
                &&& p@ == old(self).pending().subrange(0, n as int)
                &&& final(self).pending() == old(self).pending().subrange(
                    n as int,
                    old(self).pending().len() as int,
                )
                &&& final(self).pending().len() == old(self).pending().len() - n
                &&& final(self).cached() == None::<PrimaryHeader>
            },
            r is None ==> {
                &&& final(self).pending() == old(self).pending()
                &&& final(self).cached() == header_ahead(old(self).pending())
            },
    {
        let h = match self.current_header() {
            Some(h) => h,
            None => return None,
        };
        let total = h.packet_len();
        match self.stream.peek(0, total) {
            None => None,
            Some(p) => {
                self.stream.advance(total);
                self.current = None;
                Some(p)
            },
        }
    }

    /// Takes every complete packet that waits, in stream order; what is left
    /// is an incomplete tail, kept for later bytes.
    pub fn pull_all(&mut self) -> (r: Vec<Vec<u8>>)
        requires
            old(self).wf(),
        ensures
            final(self).wf(),
            r@.map_values(|p: Vec<u8>| p@) == packets_of(old(self).pending()),
            final(self).pending() == leftover(old(self).pending()),
            !has_packet(final(self).pending()),
    {
        let mut out: Vec<Vec<u8>> = Vec::new();
        loop
            invariant
                self.wf(),
                out@.map_values(|p: Vec<u8>| p@) + packets_of(self.pending())
                    == packets_of(old(self).pending()),
                leftover(self.pending()) == leftover(old(self).pending()),
            decreases self.pending().len(),
        {
            let ghost before = self.pending();
            match self.pull_packet() {
                None => {
                    assert(packets_of(before) =~= Seq::<Seq<u8>>::empty());
                    assert(out@.map_values(|p: Vec<u8>| p@) + packets_of(before)
                        =~= out@.map_values(|p: Vec<u8>| p@));
                    return out;
                },
                Some(p) => {
                    let ghost prev = out@.map_values(|q: Vec<u8>| q@);
                    out.push(p);
                    assert(out@.map_values(|q: Vec<u8>| q@) =~= prev.push(p@));
                    assert(prev.push(p@) + packets_of(self.pending()) =~= prev + packets_of(
                        before,
                    ));
                },
            }
        }
    }
}

} // verus!
