//! Where the fields of the Ethernet, IPv4, TCP and UDP headers lie, and the
//! numbers that name a protocol. The header lengths and the protocol numbers
//! are those of the `network_types` crate.

use network_types::eth::{EthHdr, EtherType};
use network_types::ip::{IpProto, Ipv4Hdr};
use network_types::tcp::TcpHdr;
use network_types::udp::UdpHdr;
use vstd::prelude::*;

verus! {

/// Length of an Ethernet header.
pub const ETH_HDR_LEN: usize = 14;

/// Length of an IPv4 header without options.
pub const IPV4_HDR_LEN: usize = 20;

/// Length of a TCP header without options.
pub const TCP_HDR_LEN: usize = 20;

/// Length of a UDP header.
pub const UDP_HDR_LEN: usize = 8;

/// Offset of the EtherType in an Ethernet header.
pub const ETH_TYPE_OFFSET: usize = 12;

/// Offset of the protocol number in an IPv4 header.
pub const IPV4_PROTO_OFFSET: usize = 9;

/// Offset of the source address in an IPv4 header.
pub const IPV4_SRC_OFFSET: usize = 12;

/// Offset of the destination address in an IPv4 header.
pub const IPV4_DST_OFFSET: usize = 16;

/// Offset of the source port in a TCP or UDP header.
pub const L4_SRC_PORT_OFFSET: usize = 0;

/// Offset of the destination port in a TCP or UDP header.
pub const L4_DST_PORT_OFFSET: usize = 2;

/// Offset of the length field in a UDP header.
pub const UDP_LEN_OFFSET: usize = 4;

/// EtherType of IPv4.
pub const ETHERTYPE_IPV4: u16 = 0x0800;

/// EtherType of a frame that carries an 802.1Q tag.
pub const ETHERTYPE_8021Q: u16 = 0x8100;

/// Protocol number of TCP.
pub const IPPROTO_TCP: u8 = 6;

/// Protocol number of UDP.
pub const IPPROTO_UDP: u8 = 17;

/// `EthHdr::LEN` of network_types: the size of a header of two addresses of
/// six bytes and a type of two, which is 14.
#[verifier::external_body]
pub(crate) fn eth_hdr_len() -> (n: usize)
    ensures
        n == ETH_HDR_LEN,
{
    EthHdr::LEN
}

/// `Ipv4Hdr::LEN` of network_types: the size of the fixed part of an IPv4
/// header, which is 20.
#[verifier::external_body]
pub(crate) fn ipv4_hdr_len() -> (n: usize)
    ensures
        n == IPV4_HDR_LEN,
{
    Ipv4Hdr::LEN
}

/// `TcpHdr::LEN` of network_types: the size of the fixed part of a TCP
/// header, which is 20.
#[verifier::external_body]
pub(crate) fn tcp_hdr_len() -> (n: usize)
    ensures
        n == TCP_HDR_LEN,
{
    TcpHdr::LEN
}

/// `UdpHdr::LEN` of network_types: the size of a UDP header, which is 8.
#[verifier::external_body]
pub(crate) fn udp_hdr_len() -> (n: usize)
    ensures
        n == UDP_HDR_LEN,
{
    UdpHdr::LEN
}

/// `IpProto::Tcp` of network_types as the byte found in a header, which is 6.
#[verifier::external_body]
pub(crate) fn ip_proto_tcp() -> (p: u8)
    ensures
        p == IPPROTO_TCP,
{
    IpProto::Tcp as u8
}

/// `IpProto::Udp` of network_types as the byte found in a header, which is
/// 17.
#[verifier::external_body]
pub(crate) fn ip_proto_udp() -> (p: u8)
    ensures
        p == IPPROTO_UDP,
{
    IpProto::Udp as u8
}

/// `EtherType::Ipv4` of network_types. The crate keeps the number as it lies
/// in memory, in network order; read as such it is 0x0800.
#[verifier::external_body]
pub(crate) fn ether_type_ipv4() -> (t: u16)
    ensures
        t == ETHERTYPE_IPV4,
{
    u16::from_be(EtherType::Ipv4 as u16)
}

/// The header length that the first byte of an IPv4 header announces: its
/// low four bits, counted in words of four bytes.
pub open spec fn spec_ihl_bytes(vihl: u8) -> usize {
    ((vihl % 16) * 4) as usize
}

/// The header length in bytes that the first byte of an IPv4 header
/// announces.
pub fn ihl_bytes(vihl: u8) -> (n: usize)
    ensures
        n == spec_ihl_bytes(vihl),
        n <= 60,
{
    let words: u8 = vihl % 16;
    (words as usize) * 4
}

} // verus!
