//! ICMP and ICMPv6 echo packets: building requests, reading replies.
use vstd::prelude::*;

verus! {

/// Bytes in every echo request built here (header and payload).
pub const PACKET_SIZE: usize = 16;

pub const ICMP_ECHO_REPLY: u8 = 0;
pub const ICMP_ECHO_REQUEST: u8 = 8;
pub const ICMPV6_ECHO_REQUEST: u8 = 128;
pub const ICMPV6_ECHO_REPLY: u8 = 129;

/// The Internet checksum of `data`, leaving out the 16-bit word at index
/// `skipword`, as pnet computes it.
pub uninterp spec fn internet_checksum(data: Seq<u8>, skipword: nat) -> u16;

/// Relies on `pnet::util::checksum`: the ones'-complement sum of the
/// big-endian words of `data` other than word `skipword`, which is zero for
/// empty data. Its running sum is a `u32`, which the length bound keeps from
/// overflowing.
#[verifier::external_body]
fn checksum(data: &[u8], skipword: usize) -> (r: u16)
    requires
        data@.len() <= 65536,
    ensures
        r == internet_checksum(data@, skipword as nat),
        data@.len() == 0 ==> r == 0,
{
    pnet::util::checksum(data, skipword)
}

/// Relies on `rand::random`: a uniformly drawn `u16` from the thread-local
/// generator. Nothing is promised of its value.
#[verifier::external_body]
fn random_u16() -> (r: u16) {
    rand::random::<u16>()
}

pub open spec fn hi(v: u16) -> u8 {
    (v / 256) as u8
}

pub open spec fn lo(v: u16) -> u8 {
    (v % 256) as u8
}

/// The big-endian 16-bit value of two bytes.
pub open spec fn be16(h: u8, l: u8) -> u16 {
    (h as int * 256 + l as int) as u16
}

/// An echo request of the given ICMP type with a zero checksum field: type,
/// code 0, checksum, identifier, sequence number, then a zero payload.
pub open spec fn request_template(icmp_type: u8, sequence: u16, identifier: u16) -> Seq<u8> {
    seq![icmp_type, 0u8, 0u8, 0u8, hi(identifier), lo(identifier), hi(sequence), lo(sequence)]
        + Seq::new(8, |i: int| 0u8)
}

/// The request with its checksum field (bytes 2 and 3) filled in.
pub open spec fn request_bytes(icmp_type: u8, sequence: u16, identifier: u16) -> Seq<u8> {
    let t = request_template(icmp_type, sequence, identifier);
    let c = internet_checksum(t, 1);
    t.update(2, hi(c)).update(3, lo(c))
}

/// Builds the wire bytes of an echo request of type `icmp_type`.
pub fn echo_request_packet(icmp_type: u8, sequence: u16, identifier: u16) -> (r: Vec<u8>)
    ensures
        r@ == request_bytes(icmp_type, sequence, identifier),
{
    let mut buf: Vec<u8> = vec![0u8; PACKET_SIZE];
    buf.set(0, icmp_type);
    buf.set(4, (identifier / 256) as u8);
    buf.set(5, (identifier % 256) as u8);
    buf.set(6, (sequence / 256) as u8);
    buf.set(7, (sequence % 256) as u8);
    assert(buf@ =~= request_template(icmp_type, sequence, identifier));
    let c = checksum(buf.as_slice(), 1);
    buf.set(2, (c / 256) as u8);
    buf.set(3, (c % 256) as u8);
    assert(buf@ =~= request_bytes(icmp_type, sequence, identifier));
    buf
}

/// What an echo reply carries back.
#[derive(Clone, Copy, PartialEq, Eq, Structural, Debug)]
pub struct EchoReply {
    pub sequence: u16,
    pub identifier: u16,
}

/// The echo-reply type of the family.
pub open spec fn reply_type(v6: bool) -> u8 {
    if v6 { ICMPV6_ECHO_REPLY } else { ICMP_ECHO_REPLY }
}

/// Reads an ICMP (or, with `v6`, ICMPv6) packet: `Some` exactly for an echo
/// reply long enough to hold its header, with its sequence number and
/// identifier.
pub open spec fn reply_of(bytes: Seq<u8>, v6: bool) -> Option<EchoReply> {
    if bytes.len() >= 8 && bytes[0] == reply_type(v6) {
        Some(EchoReply { sequence: be16(bytes[6], bytes[7]), identifier: be16(bytes[4], bytes[5]) })
    } else {
        None
    }
}

/// Decodes an inbound packet; anything but an echo reply gives `None`.
pub fn parse_echo_reply(bytes: &[u8], v6: bool) -> (r: Option<EchoReply>)
    ensures
        r == reply_of(bytes@, v6),
{
    let want: u8 = if v6 { ICMPV6_ECHO_REPLY } else { ICMP_ECHO_REPLY };
    if bytes.len() >= 8 && bytes[0] == want {
        let identifier: u16 = (bytes[4] as u16) * 256 + bytes[5] as u16;
        let sequence: u16 = (bytes[6] as u16) * 256 + bytes[7] as u16;
        Some(EchoReply { sequence, identifier })
    } else {
        None
    }
}

/// An echo request ready to go out: its bytes, and the numbers that a
/// reply must carry back.
#[derive(Clone, PartialEq, Eq, Debug)]
pub struct OutgoingProbe {
    pub packet: Vec<u8>,
    pub sequence: u16,
    pub identifier: u16,
}

/// Builds an echo request of type `icmp_type` with a random sequence number
/// and identifier.
pub fn random_probe(icmp_type: u8) -> (r: OutgoingProbe)
    ensures
        r.packet@ == request_bytes(icmp_type, r.sequence, r.identifier),
{
    let sequence = random_u16();
    let identifier = random_u16();
    let packet = echo_request_packet(icmp_type, sequence, identifier);
    OutgoingProbe { packet, sequence, identifier }
}

} // verus!
