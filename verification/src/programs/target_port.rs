//! A filter that drops what is sent to one port, over TCP or UDP, and lets
//! everything else through.

use crate::headers::{
    eth_hdr_len, ether_type_ipv4, ip_proto_tcp, ip_proto_udp, ipv4_hdr_len, tcp_hdr_len,
    udp_hdr_len, ETHERTYPE_IPV4, ETH_HDR_LEN, ETH_TYPE_OFFSET, IPPROTO_TCP, IPPROTO_UDP,
    IPV4_HDR_LEN, IPV4_PROTO_OFFSET, L4_DST_PORT_OFFSET, TCP_HDR_LEN, UDP_HDR_LEN,
};
use crate::packet::{be16, BPFilterContext, BpfContext};
use crate::verdict::{FilterResult, XDP_ABORTED};
use vstd::prelude::*;

verus! {

/// The port that nothing may be sent to.
pub const BLOCKED_PORT: u16 = 12345;

/// Why the filter gave no verdict.
#[derive(Copy, Clone, Debug, PartialEq, Eq, Structural)]
pub enum TargetPortError {
    /// A header does not lie inside the packet.
    Bounds,
    /// The packet is IPv4 and carries neither TCP nor UDP.
    UnsupportedProtocol,
}

/// The verdict on a frame: anything but IPv4 passes; TCP and UDP pass unless
/// sent to the blocked port; a frame too short for its headers, or of another
/// transport, gets none.
pub open spec fn target_port_step(bytes: Seq<u8>) -> Result<FilterResult, TargetPortError> {
    let ip = ETH_HDR_LEN as int;
    let l4 = ETH_HDR_LEN + IPV4_HDR_LEN;
    if bytes.len() < ETH_HDR_LEN {
        Err(TargetPortError::Bounds)
    } else if be16(bytes.subrange(ETH_TYPE_OFFSET as int, ETH_TYPE_OFFSET + 2)) != ETHERTYPE_IPV4 {
        Ok(FilterResult::Pass)
    } else if bytes.len() < ip + IPV4_HDR_LEN {
        Err(TargetPortError::Bounds)
    } else {
        let proto = bytes[ip + IPV4_PROTO_OFFSET];
        if proto != IPPROTO_TCP && proto != IPPROTO_UDP {
            Err(TargetPortError::UnsupportedProtocol)
        } else if bytes.len() < l4 + (if proto == IPPROTO_TCP {
            TCP_HDR_LEN
        } else {
            UDP_HDR_LEN
        }) {
            Err(TargetPortError::Bounds)
        } else if be16(bytes.subrange(l4 + L4_DST_PORT_OFFSET, l4 + L4_DST_PORT_OFFSET + 2))
            == BLOCKED_PORT {
            Ok(FilterResult::Drop)
        } else {
            Ok(FilterResult::Pass)
        }
    }
}

/// Judges one frame, as `target_port_step` says.
pub fn try_filter(ctx: &BpfContext) -> (r: Result<FilterResult, TargetPortError>)
    ensures
        r == target_port_step(ctx.bytes()),
{
    let eth_len = eth_hdr_len();
    if ctx.get_ptr(0, eth_len).is_err() {
        return Err(TargetPortError::Bounds);
    }
    let ether_type = match ctx.read_u16(ETH_TYPE_OFFSET) {
        Ok(t) => t,
        Err(_) => {
            return Err(TargetPortError::Bounds);
        },
    };
    if ether_type != ether_type_ipv4() {
        return Ok(FilterResult::Pass);
    }
    let ip_len = ipv4_hdr_len();
    if ctx.get_ptr(eth_len, ip_len).is_err() {
        return Err(TargetPortError::Bounds);
    }
    let proto = match ctx.read_u8(eth_len + IPV4_PROTO_OFFSET) {
        Ok(p) => p,
        Err(_) => {
            return Err(TargetPortError::Bounds);
        },
    };
    let l4_len = if proto == ip_proto_tcp() {
        tcp_hdr_len()
    } else if proto == ip_proto_udp() {
        udp_hdr_len()
    } else {
        return Err(TargetPortError::UnsupportedProtocol);
    };
    let l4 = eth_len + ip_len;
    if ctx.get_ptr(l4, l4_len).is_err() {
        return Err(TargetPortError::Bounds);
    }
    let target_port = match ctx.read_u16(l4 + L4_DST_PORT_OFFSET) {
        Ok(p) => p,
        Err(_) => {
            return Err(TargetPortError::Bounds);
        },
    };
    if target_port == BLOCKED_PORT {
        Ok(FilterResult::Drop)
    } else {
        Ok(FilterResult::Pass)
    }
}

/// The verdict handed to the router: a frame without a verdict is aborted.
pub open spec fn spec_main(bytes: Seq<u8>) -> FilterResult {
    match target_port_step(bytes) {
        Ok(v) => v,
        Err(_) => FilterResult::Abort,
    }
}

/// Entry point of the filter in the router.
pub fn main(ctx: &BpfContext) -> (r: FilterResult)
    ensures
        r == spec_main(ctx.bytes()),
{
    match try_filter(ctx) {
        Ok(v) => v,
        Err(_) => FilterResult::Abort,
    }
}

/// Entry point of the filter as a kernel-style packet filter: the action code
/// of the frame's verdict.
pub fn filter(ctx: &BPFilterContext) -> (code: u32)
    ensures
        code == spec_main(ctx.packet.bytes()).spec_xdp_action(),
{
    match try_filter(&ctx.packet) {
        Ok(v) => v.xdp_action(),
        Err(_) => XDP_ABORTED,
    }
}

} // verus!
