use vstd::prelude::*;
use byteorder::ByteOrder;

verus! {

/// The unsigned integer that `s` encodes, most significant byte first.
pub open spec fn be_value(s: Seq<u8>) -> nat
    decreases s.len(),
{
    if s.len() == 0 {
        0
    } else {
        be_value(s.drop_last()) * 256 + s.last() as nat
    }
}

/// The signed 64-bit integer, in two's complement, that the first eight
/// bytes of `s` encode, most significant byte first.
pub open spec fn be_i64_of(s: Seq<u8>) -> int {
    let v = be_value(s.take(8));
    if v < 0x8000_0000_0000_0000 {
        v as int
    } else {
        v - 0x1_0000_0000_0000_0000
    }
}

/// The unsigned 32-bit integer that the first four bytes of `s` encode,
/// most significant byte first.
pub open spec fn be_u32_of(s: Seq<u8>) -> nat {
    be_value(s.take(4))
}

/// Relies on byteorder's `BigEndian::read_i64`: the first eight bytes of
/// `buf`, most significant first, as a two's complement integer. It panics
/// on fewer than eight bytes.
#[verifier::external_body]
pub(crate) fn read_be_i64(buf: &[u8]) -> (r: i64)
    requires
        buf@.len() >= 8,
    ensures
        r as int == be_i64_of(buf@),
{
    byteorder::BigEndian::read_i64(buf)
}

/// Relies on byteorder's `BigEndian::read_u32`: the first four bytes of
/// `buf`, most significant first. It panics on fewer than four bytes.
#[verifier::external_body]
pub(crate) fn read_be_u32(buf: &[u8]) -> (r: u32)
    requires
        buf@.len() >= 4,
    ensures
        r as nat == be_u32_of(buf@),
{
    byteorder::BigEndian::read_u32(buf)
}

} // verus!
