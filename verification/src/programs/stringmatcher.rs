//! A filter that drops packets in which a fixed word occurs, found by a
//! simple automaton over the first bytes of the packet.

use crate::headers::{ipv4_hdr_len, IPV4_HDR_LEN};
use crate::packet::BpfContext;
use crate::verdict::FilterResult;
use vstd::prelude::*;

verus! {

/// How many bytes of a packet are looked at.
pub const SCAN_LIMIT: usize = 2000;

/// Length of the word.
pub const WORD_LEN: usize = 8;

/// The word: `leetcode`.
pub open spec fn match_word() -> Seq<u8> {
    seq![108u8, 101u8, 101u8, 116u8, 99u8, 111u8, 100u8, 101u8]
}

/// The byte of the word at `state`.
fn word_byte(state: usize) -> (b: u8)
    requires
        state < WORD_LEN,
    ensures
        b == match_word()[state as int],
{
    let word: [u8; 8] = [108, 101, 101, 116, 99, 111, 100, 101];
    assert(word@ =~= match_word());
    word[state]
}

/// The automaton's state after a byte: one further in the word where the
/// byte is the one awaited, back at the start otherwise, and at the end for
/// good once the whole word was seen.
pub open spec fn next_state(state: nat, byte: u8) -> nat {
    if state >= WORD_LEN {
        WORD_LEN as nat
    } else if byte == match_word()[state as int] {
        state + 1
    } else {
        0
    }
}

/// The automaton's state after the first `n` bytes.
pub open spec fn state_after(bytes: Seq<u8>, n: nat) -> nat
    decreases n,
{
    if n == 0 {
        0
    } else {
        next_state(state_after(bytes, (n - 1) as nat), bytes[n - 1])
    }
}

/// How many bytes of a packet are looked at: all, up to the limit.
pub open spec fn scanned_len(bytes: Seq<u8>) -> nat {
    if bytes.len() < SCAN_LIMIT {
        bytes.len()
    } else {
        SCAN_LIMIT as nat
    }
}

/// The verdict on a packet: aborted where it is too short for an IPv4
/// header, dropped where the automaton saw the whole word, passed otherwise.
pub open spec fn match_step(bytes: Seq<u8>) -> FilterResult {
    if bytes.len() < IPV4_HDR_LEN {
        FilterResult::Abort
    } else if state_after(bytes, scanned_len(bytes)) == WORD_LEN {
        FilterResult::Drop
    } else {
        FilterResult::Pass
    }
}

/// The automaton never leaves the states of the word.
pub proof fn lemma_state_bounded(bytes: Seq<u8>, n: nat)
    ensures
        state_after(bytes, n) <= WORD_LEN,
    decreases n,
{
    if n > 0 {
        lemma_state_bounded(bytes, (n - 1) as nat);
    }
}

/// Once the whole word was seen, it stays seen.
pub proof fn lemma_match_stays(bytes: Seq<u8>, n: nat, m: nat)
    requires
        n <= m,
        state_after(bytes, n) == WORD_LEN,
    ensures
        state_after(bytes, m) == WORD_LEN,
    decreases m,
{
    if m > n {
        lemma_match_stays(bytes, n, (m - 1) as nat);
    }
}

/// Judges one packet, as `match_step` says.
pub fn try_filter(ctx: &BpfContext) -> (r: FilterResult)
    ensures
        r == match_step(ctx.bytes()),
{
    if ctx.get_ptr(0, ipv4_hdr_len()).is_err() {
        return FilterResult::Abort;
    }
    let len = ctx.len();
    let limit: usize = if len < SCAN_LIMIT {
        len
    } else {
        SCAN_LIMIT
    };
    let mut state: usize = 0;
    let mut i: usize = 0;
    while i < limit
        invariant
            i <= limit,
            limit == scanned_len(ctx.bytes()),
            limit <= ctx.bytes().len(),
            ctx.bytes().len() >= IPV4_HDR_LEN,
            state < WORD_LEN,
            state == state_after(ctx.bytes(), i as nat),
        decreases limit - i,
    {
        let inspectable: u8 = match ctx.read_u8(i) {
            Ok(b) => b,
            Err(_) => {
                return FilterResult::Abort;
            },
        };
        if inspectable == word_byte(state) {
            state += 1;
        } else {
            state = 0;
        }
        i += 1;
        if state >= WORD_LEN {
            proof {
                lemma_match_stays(ctx.bytes(), i as nat, scanned_len(ctx.bytes()));
            }
            return FilterResult::Drop;
        }
    }
    FilterResult::Pass
}

/// Entry point of the filter in the router.
pub fn main(ctx: &BpfContext) -> (r: FilterResult)
    ensures
        r == match_step(ctx.bytes()),
{
    try_filter(ctx)
}

} // verus!
