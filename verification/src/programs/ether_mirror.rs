//! A rewriter that sends a frame back where it came from: it exchanges the
//! two addresses of the Ethernet header.

use crate::headers::{eth_hdr_len, ETH_HDR_LEN};
use crate::packet::{overwritten, BoundsError, BpfContext, RewriterContext};
use crate::verdict::RewriterResult;
use vstd::prelude::*;
use vstd::slice::slice_to_vec;

verus! {

/// Length of an Ethernet address.
pub const MAC_LEN: usize = 6;

/// The frame with its two addresses exchanged.
pub open spec fn mirrored(bytes: Seq<u8>) -> Seq<u8>
    recommends
        bytes.len() >= ETH_HDR_LEN,
{
    let dst = bytes.subrange(0, MAC_LEN as int);
    let src = bytes.subrange(MAC_LEN as int, 2 * MAC_LEN);
    overwritten(overwritten(bytes, 0, src), MAC_LEN as int, dst)
}

/// Exchanges the source and destination address of the frame. A frame
/// shorter than an Ethernet header stays as it is.
pub fn try_rewrite(ctx: &mut BpfContext) -> (r: Result<(), BoundsError>)
    ensures
        final(ctx).port == old(ctx).port,
        match r {
            Ok(_) => old(ctx).bytes().len() >= ETH_HDR_LEN && final(ctx).bytes() == mirrored(
                old(ctx).bytes(),
            ),
            Err(_) => old(ctx).bytes().len() < ETH_HDR_LEN && final(ctx).bytes() == old(ctx).bytes(),
        },
{
    if ctx.get_ptr(0, eth_hdr_len()).is_err() {
        return Err(BoundsError);
    }
    let dst: Vec<u8> = slice_to_vec(ctx.get_ptr(0, MAC_LEN)?);
    let src: Vec<u8> = slice_to_vec(ctx.get_ptr(MAC_LEN, MAC_LEN)?);
    ctx.get_ptr_mut(0, src.as_slice())?;
    ctx.get_ptr_mut(MAC_LEN, dst.as_slice())?;
    Ok(())
}

/// Entry point of the rewriter: `Success` where the addresses were
/// exchanged, `Abort` for a frame too short, which stays as it is.
pub fn rewrite(ctx: &mut RewriterContext) -> (r: RewriterResult)
    ensures
        final(ctx).packet.port == old(ctx).packet.port,
        old(ctx).packet.bytes().len() >= ETH_HDR_LEN ==> r == RewriterResult::Success && final(ctx).packet.bytes() == mirrored(old(ctx).packet.bytes()),
        old(ctx).packet.bytes().len() < ETH_HDR_LEN ==> r == RewriterResult::Abort && final(ctx).packet.bytes() == old(ctx).packet.bytes(),
{
    match try_rewrite(&mut ctx.packet) {
        Ok(_) => RewriterResult::Success,
        Err(_) => RewriterResult::Abort,
    }
}

/// Exchanging the addresses twice gives the frame back.
pub proof fn lemma_mirror_twice(bytes: Seq<u8>)
    requires
        bytes.len() >= ETH_HDR_LEN,
    ensures
        mirrored(bytes).len() == bytes.len(),
        mirrored(mirrored(bytes)) == bytes,
{
    assert(mirrored(mirrored(bytes)) =~= bytes);
}

} // verus!
