//! A filter that drops DNS queries for a blocked name. The filter finds the
//! query in the frame and judges what a DNS parser made of it; the parser
//! itself is not part of this library.

use crate::headers::{
    eth_hdr_len, ether_type_ipv4, ihl_bytes, ip_proto_udp, ipv4_hdr_len, spec_ihl_bytes,
    udp_hdr_len, ETHERTYPE_IPV4, ETH_HDR_LEN, ETH_TYPE_OFFSET, IPPROTO_UDP, IPV4_HDR_LEN,
    IPV4_PROTO_OFFSET, L4_DST_PORT_OFFSET, UDP_HDR_LEN, UDP_LEN_OFFSET,
};
use crate::packet::{be16, BoundsError, BpfContext, MAX_SLICE_LEN};
use crate::verdict::FilterResult;
use vstd::prelude::*;

verus! {

/// The port that DNS queries are sent to.
pub const DNS_PORT: u16 = 53;

/// What a DNS parser made of one question of a query.
#[derive(Copy, Clone, Debug, PartialEq, Eq, Structural)]
pub enum Question {
    /// The question could not be read.
    Unreadable,
    /// The question asks for a name, which is the blocked one or not.
    Named { blocked: bool },
}

/// What a DNS parser made of a query.
#[derive(Debug)]
pub enum DnsScan {
    /// The payload is no DNS message.
    Malformed,
    /// The message's questions could not be read.
    NoQuestions,
    /// The questions, in their order, up to the first that could not be
    /// read.
    Questions(Vec<Question>),
}

/// Where the payload of a DNS query lies in a frame: its offset and its
/// length, which is what the UDP header's length field says.
pub open spec fn query_window(bytes: Seq<u8>) -> (int, int)
    recommends
        bytes.len() >= ETH_HDR_LEN + IPV4_HDR_LEN,
{
    let udp = ETH_HDR_LEN + spec_ihl_bytes(bytes[ETH_HDR_LEN as int]);
    (
        udp + UDP_HDR_LEN,
        be16(bytes.subrange(udp + UDP_LEN_OFFSET, udp + UDP_LEN_OFFSET + 2)) as int,
    )
}

/// What the filter knows of a frame before its payload is read: `None` where
/// the frame is no DNS query and passes, the payload's place where it is
/// one, and no answer where the frame is too short for what is looked at.
pub open spec fn query_step(bytes: Seq<u8>) -> Result<Option<(int, int)>, BoundsError> {
    let ip = ETH_HDR_LEN as int;
    if bytes.len() < ETH_HDR_LEN {
        Err(BoundsError)
    } else if be16(bytes.subrange(ETH_TYPE_OFFSET as int, ETH_TYPE_OFFSET + 2)) != ETHERTYPE_IPV4 {
        Ok(None)
    } else if bytes.len() < ip + IPV4_HDR_LEN {
        Err(BoundsError)
    } else if spec_ihl_bytes(bytes[ip]) < IPV4_HDR_LEN {
        Ok(None)
    } else if bytes[ip + IPV4_PROTO_OFFSET] != IPPROTO_UDP {
        Ok(None)
    } else {
        let udp = ip + spec_ihl_bytes(bytes[ip]);
        if bytes.len() < udp + UDP_HDR_LEN {
            Err(BoundsError)
        } else if be16(bytes.subrange(udp + L4_DST_PORT_OFFSET, udp + L4_DST_PORT_OFFSET + 2))
            != DNS_PORT {
            Ok(None)
        } else {
            let window = query_window(bytes);
            if window.1 > MAX_SLICE_LEN || bytes.len() < window.0 + window.1 {
                Err(BoundsError)
            } else {
                Ok(Some(window))
            }
        }
    }
}

/// Finds the payload of a DNS query in a frame, as `query_step` says.
pub fn try_filter(ctx: &BpfContext) -> (r: Result<Option<&[u8]>, BoundsError>)
    ensures
        match r {
            Ok(Some(payload)) => query_step(ctx.bytes()) == Ok::<Option<(int, int)>, BoundsError>(
                Some(query_window(ctx.bytes())),
            ) && payload@ == ctx.bytes().subrange(
                query_window(ctx.bytes()).0,
                query_window(ctx.bytes()).0 + query_window(ctx.bytes()).1,
            ),
            Ok(None) => query_step(ctx.bytes()) == Ok::<Option<(int, int)>, BoundsError>(None),
            Err(e) => query_step(ctx.bytes()) == Err::<Option<(int, int)>, BoundsError>(e),
        },
{
    let eth_len = eth_hdr_len();
    if ctx.get_ptr(0, eth_len).is_err() {
        return Err(BoundsError);
    }
    let ether_type = ctx.read_u16(ETH_TYPE_OFFSET)?;
    if ether_type != ether_type_ipv4() {
        return Ok(None);
    }
    let ip_len = ipv4_hdr_len();
    if ctx.get_ptr(eth_len, ip_len).is_err() {
        return Err(BoundsError);
    }
    let vihl = ctx.read_u8(eth_len)?;
    let proto = ctx.read_u8(eth_len + IPV4_PROTO_OFFSET)?;
    let ipv4hdr_len = ihl_bytes(vihl);
    if ipv4hdr_len < ip_len {
        return Ok(None);
    }
    if proto != ip_proto_udp() {
        return Ok(None);
    }
    let udp = eth_len + ipv4hdr_len;
    let udp_len = udp_hdr_len();
    if ctx.get_ptr(udp, udp_len).is_err() {
        return Err(BoundsError);
    }
    let dst_port = ctx.read_u16(udp + L4_DST_PORT_OFFSET)?;
    if dst_port != DNS_PORT {
        return Ok(None);
    }
    let udp_data_len = ctx.read_u16(udp + UDP_LEN_OFFSET)?;
    let udp_data_offset = udp + udp_len;
    match ctx.get_slice(udp_data_len as usize, udp_data_offset) {
        Ok(payload) => Ok(Some(payload)),
        Err(e) => Err(e),
    }
}

/// Whether a question stops the query: one that could not be read, or one
/// for the blocked name.
pub open spec fn stops(question: Question) -> bool {
    match question {
        Question::Unreadable => true,
        Question::Named { blocked } => blocked,
    }
}

/// The verdict on a query: aborted where the payload is no DNS message,
/// dropped where its questions could not be read or one of them stops it,
/// passed otherwise.
pub open spec fn spec_verdict(scan: DnsScan) -> FilterResult {
    match scan {
        DnsScan::Malformed => FilterResult::Abort,
        DnsScan::NoQuestions => FilterResult::Drop,
        DnsScan::Questions(questions) => if exists|i: int|
            0 <= i < questions@.len() && stops(questions@[i]) {
            FilterResult::Drop
        } else {
            FilterResult::Pass
        },
    }
}

/// Whether one of the questions stops the query.
pub fn any_stops(questions: &[Question]) -> (found: bool)
    ensures
        found == (exists|i: int| 0 <= i < questions@.len() && stops(questions@[i])),
{
    let mut i: usize = 0;
    while i < questions.len()
        invariant
            i <= questions@.len(),
            forall|k: int| 0 <= k < i ==> !stops(questions@[k]),
        decreases questions@.len() - i,
    {
        let stop = match questions[i] {
            Question::Unreadable => true,
            Question::Named { blocked } => blocked,
        };
        if stop {
            assert(stops(questions@[i as int]));
            return true;
        }
        i += 1;
    }
    false
}

/// The verdict on a query, from what a DNS parser made of it.
pub fn verdict(scan: &DnsScan) -> (r: FilterResult)
    ensures
        r == spec_verdict(*scan),
{
    match scan {
        DnsScan::Malformed => FilterResult::Abort,
        DnsScan::NoQuestions => FilterResult::Drop,
        DnsScan::Questions(questions) => {
            if any_stops(questions.as_slice()) {
                FilterResult::Drop
            } else {
                FilterResult::Pass
            }
        },
    }
}

} // verus!
