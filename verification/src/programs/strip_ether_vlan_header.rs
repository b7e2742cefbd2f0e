//! A rewriter that takes the Ethernet header off a frame, and the 802.1Q tag
//! with it where the frame has one.

use crate::headers::{ETHERTYPE_8021Q, ETH_TYPE_OFFSET};
use crate::packet::{be16, bpf_packet_add_space, BpfContext, RewriterContext};
use crate::verdict::RewriterResult;
use vstd::prelude::*;

verus! {

/// Bytes taken off a frame without a tag: the Ethernet header.
pub const PLAIN_HEADER_LEN: i32 = 14;

/// Bytes taken off a frame with a tag: the Ethernet header and the tag.
pub const TAGGED_HEADER_LEN: i32 = 18;

/// Why the frame could not be stripped.
#[derive(Copy, Clone, Debug, PartialEq, Eq, Structural)]
pub enum StripError {
    /// The frame is too short to hold an EtherType.
    Bounds,
    /// The frame is shorter than the header to take off.
    Resize,
}

/// How many bytes are taken off a frame of at least fourteen bytes.
pub open spec fn header_len(bytes: Seq<u8>) -> int
    recommends
        bytes.len() >= ETH_TYPE_OFFSET + 2,
{
    if be16(bytes.subrange(ETH_TYPE_OFFSET as int, ETH_TYPE_OFFSET + 2)) == ETHERTYPE_8021Q {
        TAGGED_HEADER_LEN as int
    } else {
        PLAIN_HEADER_LEN as int
    }
}

/// What stripping does: its answer, and the frame afterwards.
pub open spec fn strip_step(bytes: Seq<u8>) -> (Result<(), StripError>, Seq<u8>) {
    if bytes.len() < ETH_TYPE_OFFSET + 2 {
        (Err(StripError::Bounds), bytes)
    } else if bytes.len() < header_len(bytes) {
        (Err(StripError::Resize), bytes)
    } else {
        (Ok(()), bytes.subrange(header_len(bytes), bytes.len() as int))
    }
}

/// Takes the header off the frame, as `strip_step` says.
pub fn try_rewrite(ctx: &mut BpfContext) -> (r: Result<(), StripError>)
    ensures
        final(ctx).port == old(ctx).port,
        (r, final(ctx).bytes()) == strip_step(old(ctx).bytes()),
{
    let ether_type = match ctx.read_u16(ETH_TYPE_OFFSET) {
        Ok(t) => t,
        Err(_) => {
            return Err(StripError::Bounds);
        },
    };
    let strip: i32 = if ether_type == ETHERTYPE_8021Q {
        TAGGED_HEADER_LEN
    } else {
        PLAIN_HEADER_LEN
    };
    assert(ctx.data.len() == ctx.bytes().len());
    match bpf_packet_add_space(ctx, -strip, 0) {
        Ok(_) => {
            assert(ctx.bytes() =~= old(ctx).bytes().subrange(
                strip as int,
                old(ctx).bytes().len() as int,
            ));
            Ok(())
        },
        Err(_) => Err(StripError::Resize),
    }
}

/// Entry point of the rewriter: `Success` where the header came off, `Abort`
/// for a frame too short, which stays as it is.
pub fn rewrite(ctx: &mut RewriterContext) -> (r: RewriterResult)
    ensures
        final(ctx).packet.port == old(ctx).packet.port,
        final(ctx).packet.bytes() == strip_step(old(ctx).packet.bytes()).1,
        r == (if strip_step(old(ctx).packet.bytes()).0.is_ok() {
            RewriterResult::Success
        } else {
            RewriterResult::Abort
        }),
{
    match try_rewrite(&mut ctx.packet) {
        Ok(_) => RewriterResult::Success,
        Err(_) => RewriterResult::Abort,
    }
}

} // verus!
