//! A classifier that tells UDP from TCP from everything else.

use crate::headers::{
    eth_hdr_len, ether_type_ipv4, ihl_bytes, ip_proto_tcp, ip_proto_udp, ipv4_hdr_len,
    spec_ihl_bytes, ETHERTYPE_IPV4, ETH_HDR_LEN, ETH_TYPE_OFFSET, IPPROTO_TCP, IPPROTO_UDP,
    IPV4_HDR_LEN, IPV4_PROTO_OFFSET,
};
use crate::packet::{be16, BoundsError, BpfContext, ClassifierContext};
use crate::verdict::ClassifyResult;
use vstd::prelude::*;

verus! {

/// The class of a frame: UDP or TCP where it is IPv4 with a header of at
/// least twenty bytes and carries one of them, the rest otherwise; none
/// where it is too short for the headers looked at.
pub open spec fn classify_step(bytes: Seq<u8>) -> Result<ClassifyResult, BoundsError> {
    let ip = ETH_HDR_LEN as int;
    if bytes.len() < ETH_HDR_LEN {
        Err(BoundsError)
    } else if be16(bytes.subrange(ETH_TYPE_OFFSET as int, ETH_TYPE_OFFSET + 2)) != ETHERTYPE_IPV4 {
        Ok(ClassifyResult::Rest)
    } else if bytes.len() < ip + IPV4_HDR_LEN {
        Err(BoundsError)
    } else if spec_ihl_bytes(bytes[ip]) < IPV4_HDR_LEN {
        Ok(ClassifyResult::Rest)
    } else if bytes[ip + IPV4_PROTO_OFFSET] == IPPROTO_UDP {
        Ok(ClassifyResult::Udp)
    } else if bytes[ip + IPV4_PROTO_OFFSET] == IPPROTO_TCP {
        Ok(ClassifyResult::Tcp)
    } else {
        Ok(ClassifyResult::Rest)
    }
}

/// Classifies one frame, as `classify_step` says.
pub fn try_classify(ctx: &BpfContext) -> (r: Result<ClassifyResult, BoundsError>)
    ensures
        r == classify_step(ctx.bytes()),
{
    let eth_len = eth_hdr_len();
    if ctx.get_ptr(0, eth_len).is_err() {
        return Err(BoundsError);
    }
    let ether_type = ctx.read_u16(ETH_TYPE_OFFSET)?;
    if ether_type != ether_type_ipv4() {
        return Ok(ClassifyResult::Rest);
    }
    let ip_len = ipv4_hdr_len();
    if ctx.get_ptr(eth_len, ip_len).is_err() {
        return Err(BoundsError);
    }
    let vihl = ctx.read_u8(eth_len)?;
    let proto = ctx.read_u8(eth_len + IPV4_PROTO_OFFSET)?;
    if ihl_bytes(vihl) < ip_len {
        return Ok(ClassifyResult::Rest);
    }
    if proto == ip_proto_udp() {
        Ok(ClassifyResult::Udp)
    } else if proto == ip_proto_tcp() {
        Ok(ClassifyResult::Tcp)
    } else {
        Ok(ClassifyResult::Rest)
    }
}

/// The class handed to the router: a frame too short to classify belongs to
/// the rest.
pub open spec fn spec_class(bytes: Seq<u8>) -> ClassifyResult {
    match classify_step(bytes) {
        Ok(c) => c,
        Err(_) => ClassifyResult::Rest,
    }
}

/// Entry point of the classifier: the output that the frame leaves by.
pub fn classify(ctx: &ClassifierContext) -> (output: u32)
    ensures
        output == spec_class(ctx.packet.bytes()).spec_output_port(),
        output <= 2,
{
    match try_classify(&ctx.packet) {
        Ok(c) => c.output_port(),
        Err(_) => ClassifyResult::Rest.output_port(),
    }
}

} // verus!
