//! Byte-level primitives: big-endian integers and UTF-8 text.
//!
//! The functions that read and write bytes here call `nom`, `byteorder` and
//! `std::str`; their contracts are stated, not proved.

use byteorder::{BigEndian, WriteBytesExt};
use nom::error::ErrorKind;
use nom::number::complete::{be_u16, be_u32, le_u8};
use vstd::prelude::*;
use vstd::string::StringSliceAdditionalSpecFns;
use vstd::utf8::valid_utf8;

verus! {

/// The two bytes of `n`, most significant first.
pub open spec fn be_u16_bytes(n: u16) -> Seq<u8> {
    seq![(n / 256) as u8, (n % 256) as u8]
}

/// The number whose big-endian bytes are the first two of `bytes`.
pub open spec fn be_u16_value(bytes: Seq<u8>) -> u16
    recommends
        bytes.len() >= 2,
{
    (bytes[0] * 256 + bytes[1]) as u16
}

/// The four bytes of `n`, most significant first.
pub open spec fn be_u32_bytes(n: u32) -> Seq<u8> {
    seq![
        (n / 0x100_0000) as u8,
        (n / 0x1_0000 % 256) as u8,
        (n / 0x100 % 256) as u8,
        (n % 256) as u8,
    ]
}

/// The number whose big-endian bytes are the first four of `bytes`.
pub open spec fn be_u32_value(bytes: Seq<u8>) -> u32
    recommends
        bytes.len() >= 4,
{
    (bytes[0] * 0x100_0000 + bytes[1] * 0x1_0000 + bytes[2] * 0x100 + bytes[3]) as u32
}

/// Reading back the big-endian bytes of a 16-bit number gives the number,
/// whatever follows them.
pub proof fn lemma_be_u16_roundtrip(n: u16, rest: Seq<u8>)
    ensures
        be_u16_value(be_u16_bytes(n) + rest) == n,
        be_u16_bytes(n).len() == 2,
{
}

/// Reading back the big-endian bytes of a 32-bit number gives the number,
/// whatever follows them.
pub proof fn lemma_be_u32_roundtrip(n: u32, rest: Seq<u8>)
    ensures
        be_u32_value(be_u32_bytes(n) + rest) == n,
        be_u32_bytes(n).len() == 4,
{
}

/// Calls `nom::number::complete::le_u8`. Trusted: on an empty input the call
/// fails; otherwise it yields the first byte and the input after it.
#[verifier::external_body]
pub(crate) fn take_u8<'a>(input: &'a [u8]) -> (r: Option<(&'a [u8], u8)>)
    ensures
        r is Some <==> input@.len() >= 1,
        r matches Some(p) ==> p.0@ == input@.skip(1) && p.1 == input@[0],
{
    match le_u8::<(&[u8], ErrorKind)>(input) {
        Ok((rest, value)) => Some((rest, value)),
        Err(_) => None,
    }
}

/// Calls `nom::number::complete::be_u16`. Trusted: with fewer than two bytes
/// the call fails; otherwise it yields the big-endian value of the first two
/// and the input after them.
#[verifier::external_body]
pub(crate) fn take_be_u16<'a>(input: &'a [u8]) -> (r: Option<(&'a [u8], u16)>)
    ensures
        r is Some <==> input@.len() >= 2,
        r matches Some(p) ==> p.0@ == input@.skip(2) && p.1 == be_u16_value(input@),
{
    match be_u16::<(&[u8], ErrorKind)>(input) {
        Ok((rest, value)) => Some((rest, value)),
        Err(_) => None,
    }
}

/// Calls `nom::number::complete::be_u32`. Trusted: with fewer than four bytes
/// the call fails; otherwise it yields the big-endian value of the first four
/// and the input after them.
#[verifier::external_body]
pub(crate) fn take_be_u32<'a>(input: &'a [u8]) -> (r: Option<(&'a [u8], u32)>)
    ensures
        r is Some <==> input@.len() >= 4,
        r matches Some(p) ==> p.0@ == input@.skip(4) && p.1 == be_u32_value(input@),
{
    match be_u32::<(&[u8], ErrorKind)>(input) {
        Ok((rest, value)) => Some((rest, value)),
        Err(_) => None,
    }
}

/// Calls `byteorder::WriteBytesExt::write_u16` with `BigEndian` on an empty
/// vector. Trusted: writing to a vector does not fail, and the vector then
/// holds the two bytes of `n`, most significant first.
#[verifier::external_body]
pub(crate) fn put_be_u16(n: u16) -> (wtr: Vec<u8>)
    ensures
        wtr@ == be_u16_bytes(n),
{
    let mut wtr = vec![];
    wtr.write_u16::<BigEndian>(n).unwrap();
    wtr
}

/// Calls `byteorder::WriteBytesExt::write_u32` with `BigEndian` on an empty
/// vector. Trusted: writing to a vector does not fail, and the vector then
/// holds the four bytes of `n`, most significant first.
#[verifier::external_body]
pub(crate) fn put_be_u32(n: u32) -> (wtr: Vec<u8>)
    ensures
        wtr@ == be_u32_bytes(n),
{
    let mut wtr = vec![];
    wtr.write_u32::<BigEndian>(n).unwrap();
    wtr
}

/// Calls `std::str::from_utf8`. Trusted: the call succeeds exactly on valid
/// UTF-8, and the text it yields has the given bytes as its encoding.
#[verifier::external_body]
pub(crate) fn utf8_text<'a>(bytes: &'a [u8]) -> (r: Option<&'a str>)
    ensures
        r is Some <==> valid_utf8(bytes@),
        r matches Some(s) ==> s.spec_bytes() == bytes@,
{
    match std::str::from_utf8(bytes) {
        Ok(text) => Some(text),
        Err(_) => None,
    }
}

} // verus!
