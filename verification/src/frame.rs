//! Link, network and transport framing of captured Ethernet frames.
use crate::artnet::{be16, read_be16};
use vstd::prelude::*;
use vstd::slice::slice_subrange;

verus! {

/// Offset of the IPv4 header behind the Ethernet header.
pub const IP_START: usize = 14;

/// Length in bytes of the IPv4 header that opens at offset 14, as its first
/// byte declares it.
pub open spec fn ip_header_len(bytes: Seq<u8>) -> int
    recommends
        bytes.len() > 14,
{
    (bytes[14] % 16) * 4
}

/// A captured frame carries a UDP datagram when it is an Ethernet frame of
/// type IPv4 whose IP header is whole, says version 4 and protocol 17, and is
/// followed by a whole UDP header.
pub open spec fn is_udp_frame(bytes: Seq<u8>) -> bool {
    &&& bytes.len() >= 42
    &&& be16(bytes[12], bytes[13]) == 0x0800
    &&& bytes[14] / 16 == 4
    &&& ip_header_len(bytes) >= 20
    &&& bytes[23] == 17
    &&& 14 + ip_header_len(bytes) + 8 <= bytes.len()
}

/// Offset of the UDP header in a frame.
pub open spec fn udp_start(bytes: Seq<u8>) -> int {
    14 + ip_header_len(bytes)
}

/// `parsed` is what the captured frame `bytes` yields: nothing unless it
/// carries UDP over IPv4, otherwise sender and receiver addresses and ports
/// and the UDP payload.
pub open spec fn frame_decoding(
    bytes: Seq<u8>,
    parsed: Option<([u8; 4], [u8; 4], u16, u16, &[u8])>,
) -> bool {
    if !is_udp_frame(bytes) {
        parsed is None
    } else {
        &&& parsed matches Some(found)
        &&& found.0@ == bytes.subrange(26, 30)
        &&& found.1@ == bytes.subrange(30, 34)
        &&& found.2 == be16(bytes[udp_start(bytes)], bytes[udp_start(bytes) + 1])
        &&& found.3 == be16(bytes[udp_start(bytes) + 2], bytes[udp_start(bytes) + 3])
        &&& found.4@ == bytes.subrange(udp_start(bytes) + 8, bytes.len() as int)
    }
}

/// Takes a captured Ethernet frame apart: source address, destination
/// address, source port, destination port and UDP payload.
pub fn parse_ip_udp_packet(data: &[u8]) -> (parsed: Option<([u8; 4], [u8; 4], u16, u16, &[u8])>)
    ensures
        frame_decoding(data@, parsed),
{
    if data.len() < 42 {
        return None;
    }
    if read_be16(data[12], data[13]) != 0x0800 {
        return None;
    }
    if data[IP_START] / 16 != 4 {
        return None;
    }
    let ihl: usize = ((data[IP_START] % 16) as usize) * 4;
    if ihl < 20 || ihl > data.len() - IP_START {
        return None;
    }
    if data[IP_START + 9] != 17 {
        return None;
    }
    let src_ip = [data[26], data[27], data[28], data[29]];
    let dst_ip = [data[30], data[31], data[32], data[33]];
    let udp: usize = IP_START + ihl;
    if data.len() - udp < 8 {
        return None;
    }
    let src_port = read_be16(data[udp], data[udp + 1]);
    let dst_port = read_be16(data[udp + 2], data[udp + 3]);
    let payload = slice_subrange(data, udp + 8, data.len());
    assert(src_ip@ =~= data@.subrange(26, 30));
    assert(dst_ip@ =~= data@.subrange(30, 34));
    Some((src_ip, dst_ip, src_port, dst_port, payload))
}

/// The limited broadcast address 255.255.255.255.
pub open spec fn is_broadcast(ip: Seq<u8>) -> bool {
    ip[0] == 255 && ip[1] == 255 && ip[2] == 255 && ip[3] == 255
}

/// A multicast address: 224.0.0.0 to 239.255.255.255.
pub open spec fn is_multicast(ip: Seq<u8>) -> bool {
    224 <= ip[0] <= 239
}

/// Whether an address is the limited broadcast address.
pub fn is_broadcast_address(ip: &[u8; 4]) -> (yes: bool)
    ensures
        yes == is_broadcast(ip@),
{
    ip[0] == 255 && ip[1] == 255 && ip[2] == 255 && ip[3] == 255
}

/// Whether an address is a multicast group.
pub fn is_multicast_address(ip: &[u8; 4]) -> (yes: bool)
    ensures
        yes == is_multicast(ip@),
{
    ip[0] >= 224 && ip[0] <= 239
}

} // verus!
