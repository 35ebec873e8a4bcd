//! The three 16-bit words of the Primary Header, read through the
//! `ccsds_primary_header` crate's word types.
use vstd::prelude::*;
use ccsds_primary_header::primary_header::{ControlWord, LengthWord, SequenceWord};

verus! {

/// The 16-bit word whose high byte is `hi` and low byte is `lo`.
pub open spec fn be_word(hi: u8, lo: u8) -> u16 {
    ((hi as u16) << 8u16) | (lo as u16)
}

/// Relies on ControlWord::version: bits 13-15 of the big-endian control word.
#[verifier::external_body]
pub(crate) fn control_version(hi: u8, lo: u8) -> (r: u16)
    ensures
        r == (be_word(hi, lo) & 0xE000u16) >> 13u16,
{
    ControlWord([hi, lo]).version()
}

/// Relies on ControlWord::packet_type and `u8::from(PacketType)`: bit 12 of the
/// big-endian control word, 0 as `Data` and 1 as `Command`, mapped back to 0 and 1.
#[verifier::external_body]
pub(crate) fn control_packet_type(hi: u8, lo: u8) -> (r: u8)
    ensures
        r == ((be_word(hi, lo) & 0x1000u16) >> 12u16) as u8,
{
    u8::from(ControlWord([hi, lo]).packet_type())
}

/// Relies on ControlWord::secondary_header_flag and `u8::from(SecondaryHeaderFlag)`:
/// bit 11 of the big-endian control word, 0 as `NotPresent` and 1 as `Present`,
/// mapped back to 0 and 1.
#[verifier::external_body]
pub(crate) fn control_secondary_header_flag(hi: u8, lo: u8) -> (r: u8)
    ensures
        r == ((be_word(hi, lo) & 0x0800u16) >> 11u16) as u8,
{
    u8::from(ControlWord([hi, lo]).secondary_header_flag())
}

/// Relies on ControlWord::apid: bits 0-10 of the big-endian control word.
#[verifier::external_body]
pub(crate) fn control_apid(hi: u8, lo: u8) -> (r: u16)
    ensures
        r == be_word(hi, lo) & 0x07FFu16,
{
    ControlWord([hi, lo]).apid()
}

/// Relies on SequenceWord::sequence_type and `u16::from(SeqFlag)`: bits 14-15 of
/// the big-endian sequence word, 0 to 3 as `Continuation` to `Unsegmented`,
/// mapped back to 0 to 3.
#[verifier::external_body]
pub(crate) fn sequence_flags(hi: u8, lo: u8) -> (r: u16)
    ensures
        r == be_word(hi, lo) >> 14u16,
{
    u16::from(SequenceWord([hi, lo]).sequence_type())
}

/// Relies on SequenceWord::sequence_count: bits 0-13 of the big-endian sequence word.
#[verifier::external_body]
pub(crate) fn sequence_count(hi: u8, lo: u8) -> (r: u16)
    ensures
        r == be_word(hi, lo) & 0x3FFFu16,
{
    SequenceWord([hi, lo]).sequence_count()
}

/// Relies on LengthWord::length_field: the whole big-endian length word.
#[verifier::external_body]
pub(crate) fn length_field(hi: u8, lo: u8) -> (r: u16)
    ensures
        r == be_word(hi, lo),
{
    LengthWord([hi, lo]).length_field()
}

} // verus!
