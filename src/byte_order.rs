use vstd::prelude::*;

verus! {

/// The byte order in which the multi-byte header words are read.
#[derive(Clone, Copy, Debug, PartialEq, Eq, Structural)]
pub enum ByteOrder {
    BigEndian,
    LittleEndian,
}

/// The byte order of the header words: always network order, as the
/// Space Packet Protocol fixes it, whatever the host.
pub fn resolve() -> (r: ByteOrder)
    ensures
        r == ByteOrder::BigEndian,
{
    ByteOrder::BigEndian
}

} // verus!
