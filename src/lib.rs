//! Incremental extraction of CCSDS space packets from a raw byte stream.
//!
//! Bytes arrive in chunks of any size through [`PacketExtractor::receive`];
//! the extractor decodes the 6-byte Primary Header at its read position and
//! hands out one complete packet (header and data field) per
//! [`PacketExtractor::pull_packet`] call.
pub mod byte_order;
pub mod header;
pub mod stream;
pub mod extractor;
mod words;

pub use byte_order::{resolve, ByteOrder};
pub use header::{decode, encode, PrimaryHeader};
pub use stream::ByteStream;
pub use extractor::{ExtractorState, PacketExtractor};
