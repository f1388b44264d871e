//! Packet headers and the datagrams that are sent in reply.

use vstd::prelude::*;

use crate::addr::SocketAddr;

verus! {

/// Length of a ping packet.
pub const PING_LENGTH: usize = 50;

/// Number of bytes of a ping that are sent back.
pub const PING_REPLY_LENGTH: usize = 12;

/// The signed 16-bit number in big-endian byte order.
pub open spec fn be_i16(high: u8, low: u8) -> i16 {
    let n = high * 256 + low;
    if n >= 0x8000 {
        (n - 0x1_0000) as i16
    } else {
        n as i16
    }
}

/// Reads a signed 16-bit number in big-endian byte order.
pub fn read_be_i16(high: u8, low: u8) -> (n: i16)
    ensures
        n == be_i16(high, low),
{
    let n: i32 = high as i32 * 256 + low as i32;
    if n >= 0x8000 {
        (n - 0x1_0000) as i16
    } else {
        n as i16
    }
}

/// The unsigned 32-bit number in little-endian byte order.
pub open spec fn le_u32(b0: u8, b1: u8, b2: u8, b3: u8) -> u32 {
    (b0 + b1 * 0x100 + b2 * 0x1_0000 + b3 * 0x100_0000) as u32
}

/// Reads an unsigned 32-bit number in little-endian byte order.
pub fn read_le_u32(b0: u8, b1: u8, b2: u8, b3: u8) -> (n: u32)
    ensures
        n == le_u32(b0, b1, b2, b3),
{
    b0 as u32 + b1 as u32 * 0x100 + b2 as u32 * 0x1_0000 + b3 as u32 * 0x100_0000
}

/// A datagram to be sent.
pub struct Datagram {
    pub payload: Vec<u8>,
    pub to: SocketAddr,
}

/// The first bytes of a packet, as many as `n` if there are so many.
pub fn first_bytes(data: &[u8], n: usize) -> (bytes: Vec<u8>)
    ensures
        bytes@ == data@.take(if n <= data@.len() {
            n as int
        } else {
            data@.len() as int
        }),
{
    let end: usize = if n <= data.len() {
        n
    } else {
        data.len()
    };
    let mut bytes: Vec<u8> = Vec::new();
    let mut i: usize = 0;
    while i < end
        invariant
            i <= end <= data@.len(),
            bytes@ == data@.take(i as int),
        decreases end - i,
    {
        bytes.push(data[i]);
        i = i + 1;
        assert(data@.take(i as int) =~= data@.take(i - 1).push(data@[i - 1]));
    }
    bytes
}

/// A copy of a whole packet.
pub fn copy_of(data: &[u8]) -> (bytes: Vec<u8>)
    ensures
        bytes@ == data@,
{
    let bytes = first_bytes(data, data.len());
    assert(data@.take(data@.len() as int) =~= data@);
    bytes
}

/// Two big-endian bytes of a signed number are read back as that number.
pub proof fn law_be_i16_is_read_back(n: i16)
    ensures
        ({
            let unsigned = if n < 0 {
                n + 0x1_0000
            } else {
                n as int
            };
            be_i16((unsigned / 256) as u8, (unsigned % 256) as u8) == n
        }),
{
}

/// Four little-endian bytes of a number are read back as that number.
pub proof fn law_le_u32_is_read_back(n: u32)
    ensures
        le_u32(
            (n % 0x100) as u8,
            (n / 0x100 % 0x100) as u8,
            (n / 0x1_0000 % 0x100) as u8,
            (n / 0x100_0000) as u8,
        ) == n,
{
}

/// Two bytes are read as 256 times the first and the second, and as 65536 less if that is more
/// than a signed number can be.
pub proof fn law_be_i16_value(high: u8, low: u8)
    ensures
        high < 128 ==> be_i16(high, low) == 256 * high + low,
        high >= 128 ==> be_i16(high, low) == 256 * high + low - 65_536,
{
}

/// Four bytes are read as a number in base 256, the first one counting least.
pub proof fn law_le_u32_value(b0: u8, b1: u8, b2: u8, b3: u8)
    ensures
        le_u32(b0, b1, b2, b3) == b0 + 256 * b1 + 65_536 * b2 + 16_777_216 * b3,
{
}

} // verus!
