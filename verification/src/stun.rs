//! Replies that tell a peer its own address, for NAT traversal.
//!
//! A reply has 40 bytes. The first four are the IPv4 address of the peer and the next two its
//! port, all of them masked; bytes 6 and 7 are the STUN ID; the rest is noise.

use vstd::prelude::*;

use crate::packet::be_i16;

verus! {

/// Length of a reply.
pub const RESPONSE_SIZE: usize = 40;

/// Length of a request.
pub const REQUIRED_PACKET_SIZE: usize = 48;

/// Mask of the address in a reply.
pub const XOR_MASK: u8 = 0x20;

/// High byte of the STUN ID.
pub const STUN_ID_HIGH: u8 = 0x66;

/// Low byte of the STUN ID.
pub const STUN_ID_LOW: u8 = 0x96;

/// `rand::RngCore::fill_bytes` of `rand::rng()`, on a new buffer. Nothing is claimed of the
/// bytes.
#[verifier::external_body]
pub(crate) fn random_bytes() -> [u8; 40] {
    let mut bytes = [0u8; 40];
    rand::RngCore::fill_bytes(&mut rand::rng(), &mut bytes);
    bytes
}

/// A buffer with the STUN ID in its place.
pub open spec fn stamped(noise: Seq<u8>) -> Seq<u8> {
    noise.update(6, STUN_ID_HIGH).update(7, STUN_ID_LOW)
}

/// Puts the STUN ID in its place.
pub fn stamp(noise: [u8; 40]) -> (buffer: [u8; 40])
    ensures
        buffer@ == stamped(noise@),
{
    let mut buffer = noise;
    buffer[6] = STUN_ID_HIGH;
    buffer[7] = STUN_ID_LOW;
    assert(buffer@ =~= stamped(noise@));
    buffer
}

/// Whether a buffer has the STUN ID in its place.
pub open spec fn has_stun_id(buffer: Seq<u8>) -> bool {
    buffer.len() == RESPONSE_SIZE && buffer[6] == STUN_ID_HIGH && buffer[7] == STUN_ID_LOW
}

/// The reply to the peer at `octets` and `port`, built on a stamped buffer.
pub open spec fn reply_bytes(
    buffer: Seq<u8>,
    octets: (u8, u8, u8, u8),
    port: u16,
) -> Seq<u8> {
    buffer.update(0, octets.0 ^ XOR_MASK).update(1, octets.1 ^ XOR_MASK).update(
        2,
        octets.2 ^ XOR_MASK,
    ).update(3, octets.3 ^ XOR_MASK).update(4, (port / 256) as u8 ^ XOR_MASK).update(
        5,
        (port % 256) as u8 ^ XOR_MASK,
    )
}

/// Writes the masked address of a peer into a buffer.
pub fn write_address(buffer: &mut [u8; 40], octets: (u8, u8, u8, u8), port: u16)
    ensures
        final(buffer)@ == reply_bytes(old(buffer)@, octets, port),
{
    buffer[0] = octets.0 ^ XOR_MASK;
    buffer[1] = octets.1 ^ XOR_MASK;
    buffer[2] = octets.2 ^ XOR_MASK;
    buffer[3] = octets.3 ^ XOR_MASK;
    buffer[4] = (port / 256) as u8 ^ XOR_MASK;
    buffer[5] = (port % 256) as u8 ^ XOR_MASK;
    assert(buffer@ =~= reply_bytes(old(buffer)@, octets, port));
}

/// The STUN ID is 26262.
pub proof fn law_stun_id_bytes()
    ensures
        be_i16(STUN_ID_HIGH, STUN_ID_LOW) == crate::net::constants::STUN_ID,
{
}

/// A peer that takes the mask off finds its own address and port in the reply, and the STUN ID
/// behind them.
pub proof fn law_reply_tells_the_address(
    buffer: Seq<u8>,
    octets: (u8, u8, u8, u8),
    port: u16,
)
    requires
        has_stun_id(buffer),
    ensures
        ({
            let reply = reply_bytes(buffer, octets, port);
            &&& reply.len() == RESPONSE_SIZE
            &&& reply[0] ^ XOR_MASK == octets.0
            &&& reply[1] ^ XOR_MASK == octets.1
            &&& reply[2] ^ XOR_MASK == octets.2
            &&& reply[3] ^ XOR_MASK == octets.3
            &&& (reply[4] ^ XOR_MASK) * 256 + (reply[5] ^ XOR_MASK) == port
            &&& be_i16(reply[6], reply[7]) == crate::net::constants::STUN_ID
        }),
{
    lemma_unmask(octets.0);
    lemma_unmask(octets.1);
    lemma_unmask(octets.2);
    lemma_unmask(octets.3);
    lemma_unmask((port / 256) as u8);
    lemma_unmask((port % 256) as u8);
    law_stun_id_bytes();
}

proof fn lemma_unmask(byte: u8)
    ensures
        (byte ^ XOR_MASK) ^ XOR_MASK == byte,
{
    assert((byte ^ 0x20u8) ^ 0x20u8 == byte) by (bit_vector);
}

/// A reply has 40 bytes. Whoever takes the mask 0x20 off its first six bytes finds the address and
/// the port; the STUN ID stands behind them, and the rest is what the buffer held.
pub proof fn law_reply_layout(buffer: Seq<u8>, octets: (u8, u8, u8, u8), port: u16, i: int)
    requires
        buffer.len() == 40,
    ensures
        ({
            let reply = reply_bytes(buffer, octets, port);
            &&& reply.len() == 40
            &&& reply[0] ^ 0x20u8 == octets.0
            &&& reply[1] ^ 0x20u8 == octets.1
            &&& reply[2] ^ 0x20u8 == octets.2
            &&& reply[3] ^ 0x20u8 == octets.3
            &&& (reply[4] ^ 0x20u8) * 256 + (reply[5] ^ 0x20u8) == port
            &&& 6 <= i < 40 ==> reply[i] == buffer[i]
        }),
{
    lemma_unmask(octets.0);
    lemma_unmask(octets.1);
    lemma_unmask(octets.2);
    lemma_unmask(octets.3);
    lemma_unmask((port / 256) as u8);
    lemma_unmask((port % 256) as u8);
}

/// Stamping puts 26262, high byte first, into bytes 6 and 7, and leaves the others.
pub proof fn law_stamp_is_the_stun_id(noise: Seq<u8>, i: int)
    requires
        noise.len() == 40,
    ensures
        stamped(noise).len() == 40,
        stamped(noise)[6] * 256 + stamped(noise)[7] == 26_262,
        0 <= i < 40 && i != 6 && i != 7 ==> stamped(noise)[i] == noise[i],
        has_stun_id(noise) <==> noise[6] * 256 + noise[7] == 26_262,
{
}

/// Two peers with different addresses or ports are told different things.
pub proof fn law_replies_tell_peers_apart(
    buffer: Seq<u8>,
    one: (u8, u8, u8, u8),
    one_port: u16,
    other: (u8, u8, u8, u8),
    other_port: u16,
)
    requires
        buffer.len() == 40,
        reply_bytes(buffer, one, one_port) == reply_bytes(buffer, other, other_port),
    ensures
        one == other,
        one_port == other_port,
{
    law_reply_layout(buffer, one, one_port, 0);
    law_reply_layout(buffer, other, other_port, 0);
}

} // verus!
