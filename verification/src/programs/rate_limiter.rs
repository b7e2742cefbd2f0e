//! A token bucket for each source address. A bucket holds at most three
//! tokens and gains one for each full second since it last gained any; a
//! packet that is let through costs two.

use crate::headers::{
    eth_hdr_len, ether_type_ipv4, ipv4_hdr_len, ETHERTYPE_IPV4, ETH_HDR_LEN, ETH_TYPE_OFFSET,
    IPV4_HDR_LEN, IPV4_SRC_OFFSET,
};
use crate::packet::{be16, be32, BPFilterContext, BpfContext};
use crate::store::BoundedMap;
use crate::verdict::{FilterResult, XDP_ABORTED};
use vstd::prelude::*;

verus! {

broadcast use vstd::std_specs::hash::group_hash_axioms;

/// The most tokens that a bucket holds.
pub const MAX_TOKENS: u32 = 3;

/// The tokens that one packet costs.
pub const PACKET_COST: u32 = 2;

/// Nanoseconds after which a bucket gains a token.
pub const REFILL_INTERVAL_NS: u64 = 1_000_000_000;

/// Number of sources that the table of buckets may hold.
pub const SOURCES_CAPACITY: usize = 1024;

/// The bucket of one source.
#[derive(Copy, Clone, Debug, PartialEq, Eq, Structural)]
pub struct RateLimit {
    pub tokens: u32,
    pub last_token_grant: u64,
}

/// Why the limiter gave no verdict.
#[derive(Copy, Clone, Debug, PartialEq, Eq, Structural)]
pub enum RateLimitError {
    /// A header does not lie inside the packet.
    Bounds,
    /// The table has no room for a new source.
    Capacity,
}

impl RateLimit {
    /// The bucket of a source first seen at `now`: full.
    pub open spec fn spec_new(now: u64) -> RateLimit {
        RateLimit { tokens: MAX_TOKENS, last_token_grant: now }
    }

    /// Full seconds between the last grant and `now`; none where the clock
    /// has not moved on.
    pub open spec fn spec_elapsed_seconds(self, now: u64) -> int {
        if now >= self.last_token_grant {
            (now - self.last_token_grant) / (REFILL_INTERVAL_NS as int)
        } else {
            0
        }
    }

    /// The bucket after it gained what is due at `now`: one token for each
    /// full second since the last grant, up to three tokens in all. Where
    /// less than a second has passed the bucket stays as it is.
    pub open spec fn spec_granted(self, now: u64) -> RateLimit {
        let gained = self.spec_elapsed_seconds(now);
        if gained > 0 {
            RateLimit {
                tokens: if self.tokens + gained > MAX_TOKENS {
                    MAX_TOKENS
                } else {
                    (self.tokens + gained) as u32
                },
                last_token_grant: now,
            }
        } else {
            self
        }
    }

    /// Whether the bucket can pay for a packet.
    pub open spec fn spec_can_spend(self) -> bool {
        self.tokens >= PACKET_COST
    }

    /// The bucket after it paid for a packet, where it could.
    pub open spec fn spec_spent(self) -> RateLimit {
        if self.spec_can_spend() {
            RateLimit { tokens: (self.tokens - PACKET_COST) as u32, ..self }
        } else {
            self
        }
    }

    /// The bucket of a source first seen at `now`: full.
    pub fn new(now: u64) -> (r: RateLimit)
        ensures
            r == RateLimit::spec_new(now),
    {
        RateLimit { tokens: MAX_TOKENS, last_token_grant: now }
    }

    /// Lets the bucket gain what is due at `now`.
    pub fn grant_tokens_if_needed(&mut self, now: u64)
        ensures
            *final(self) == old(self).spec_granted(now),
    {
        let elapsed: u64 = if now >= self.last_token_grant {
            now - self.last_token_grant
        } else {
            0
        };
        let new_tokens: u64 = elapsed / REFILL_INTERVAL_NS;
        if new_tokens > 0 {
            let room: u32 = if self.tokens >= MAX_TOKENS {
                0
            } else {
                MAX_TOKENS - self.tokens
            };
            if new_tokens >= room as u64 {
                self.tokens = MAX_TOKENS;
            } else {
                self.tokens = self.tokens + new_tokens as u32;
            }
            self.last_token_grant = now;
        }
    }

    /// Pays for a packet: takes two tokens from a bucket that holds at least
    /// two, and says whether it did.
    pub fn spend_token(&mut self) -> (paid: bool)
        ensures
            paid == old(self).spec_can_spend(),
            *final(self) == old(self).spec_spent(),
    {
        if self.tokens >= PACKET_COST {
            self.tokens -= PACKET_COST;
            true
        } else {
            false
        }
    }
}

/// The verdict on a packet whose bucket could or could not pay.
pub open spec fn verdict_of(paid: bool) -> FilterResult {
    if paid {
        FilterResult::Pass
    } else {
        FilterResult::Drop
    }
}

/// What the limiter does with a packet at time `now`: its verdict, and the
/// table of buckets afterwards.
pub open spec fn rate_limit_step(
    bytes: Seq<u8>,
    table: Map<u32, RateLimit>,
    capacity: nat,
    now: u64,
) -> (Result<FilterResult, RateLimitError>, Map<u32, RateLimit>) {
    let ip = ETH_HDR_LEN as int;
    if bytes.len() < ETH_HDR_LEN {
        (Err(RateLimitError::Bounds), table)
    } else if be16(bytes.subrange(ETH_TYPE_OFFSET as int, ETH_TYPE_OFFSET + 2)) != ETHERTYPE_IPV4 {
        (Ok(FilterResult::Drop), table)
    } else if bytes.len() < ip + IPV4_HDR_LEN {
        (Err(RateLimitError::Bounds), table)
    } else {
        let source = be32(bytes.subrange(ip + IPV4_SRC_OFFSET, ip + IPV4_SRC_OFFSET + 4));
        if table.contains_key(source) {
            let bucket = table[source].spec_granted(now);
            (Ok(verdict_of(bucket.spec_can_spend())), table.insert(source, bucket.spec_spent()))
        } else if table.len() >= capacity {
            (Err(RateLimitError::Capacity), table)
        } else {
            let bucket = RateLimit::spec_new(now);
            (Ok(verdict_of(bucket.spec_can_spend())), table.insert(source, bucket.spec_spent()))
        }
    }
}

/// Judges one packet at time `now`, in nanoseconds of a clock that does not
/// run backwards, as `rate_limit_step` says.
pub fn try_filter(ctx: &BpfContext, limits: &mut BoundedMap<u32, RateLimit>, now: u64) -> (r:
    Result<FilterResult, RateLimitError>)
    requires
        old(limits).wf(),
    ensures
        final(limits).wf(),
        final(limits).spec_capacity() == old(limits).spec_capacity(),
        (r, final(limits)@) == rate_limit_step(
            ctx.bytes(),
            old(limits)@,
            old(limits).spec_capacity(),
            now,
        ),
{
    let eth_len = eth_hdr_len();
    if ctx.get_ptr(0, eth_len).is_err() {
        return Err(RateLimitError::Bounds);
    }
    let ether_type = match ctx.read_u16(ETH_TYPE_OFFSET) {
        Ok(t) => t,
        Err(_) => {
            return Err(RateLimitError::Bounds);
        },
    };
    if ether_type != ether_type_ipv4() {
        return Ok(FilterResult::Drop);
    }
    if ctx.get_ptr(eth_len, ipv4_hdr_len()).is_err() {
        return Err(RateLimitError::Bounds);
    }
    let source = match ctx.read_u32(eth_len + IPV4_SRC_OFFSET) {
        Ok(a) => a,
        Err(_) => {
            return Err(RateLimitError::Bounds);
        },
    };
    let known: Option<RateLimit> = match limits.get(&source) {
        Some(bucket) => Some(*bucket),
        None => None,
    };
    let mut bucket = match known {
        Some(mut bucket) => {
            bucket.grant_tokens_if_needed(now);
            bucket
        },
        None => {
            if limits.len() >= limits.capacity() {
                return Err(RateLimitError::Capacity);
            }
            RateLimit::new(now)
        },
    };
    let paid = bucket.spend_token();
    let stored = limits.insert(&source, &bucket);
    assert(stored.is_ok());
    if paid {
        Ok(FilterResult::Pass)
    } else {
        Ok(FilterResult::Drop)
    }
}

/// The action code that the limiter's verdict stands for.
pub open spec fn spec_action(r: Result<FilterResult, RateLimitError>) -> u32 {
    match r {
        Ok(v) => v.spec_xdp_action(),
        Err(_) => XDP_ABORTED,
    }
}

/// Entry point of the limiter as a kernel-style packet filter: the action
/// code for the packet at time `now`.
pub fn filter(ctx: &BPFilterContext, limits: &mut BoundedMap<u32, RateLimit>, now: u64) -> (code:
    u32)
    requires
        old(limits).wf(),
    ensures
        final(limits).wf(),
        final(limits).spec_capacity() == old(limits).spec_capacity(),
        code == spec_action(
            rate_limit_step(
                ctx.packet.bytes(),
                old(limits)@,
                old(limits).spec_capacity(),
                now,
            ).0,
        ),
        final(limits)@ == rate_limit_step(
            ctx.packet.bytes(),
            old(limits)@,
            old(limits).spec_capacity(),
            now,
        ).1,
{
    match try_filter(&ctx.packet, limits, now) {
        Ok(verdict) => verdict.xdp_action(),
        Err(_) => XDP_ABORTED,
    }
}

/// A full bucket pays for one packet and not for a second at the same time:
/// three consecutive packets of one source are never all let through unless
/// time passes between them.
pub proof fn lemma_full_bucket_pays_once(now: u64)
    ensures
        RateLimit::spec_new(now).spec_can_spend(),
        !RateLimit::spec_new(now).spec_spent().spec_granted(now).spec_can_spend(),
        RateLimit::spec_new(now).spec_spent().tokens == 1,
{
}

/// Of two packets of a new source that arrive at the same time, where the
/// table has room for the source, the first is let through and the second
/// is dropped; the bucket then holds one token.
pub proof fn lemma_burst_of_one(bytes: Seq<u8>, table: Map<u32, RateLimit>, capacity: nat, now: u64)
    requires
        rate_limit_step(bytes, table, capacity, now).0 == Ok::<FilterResult, RateLimitError>(
            FilterResult::Pass,
        ),
        bytes.len() >= ETH_HDR_LEN + IPV4_HDR_LEN,
        !table.contains_key(
            be32(
                bytes.subrange(
                    ETH_HDR_LEN + IPV4_SRC_OFFSET,
                    ETH_HDR_LEN + IPV4_SRC_OFFSET + 4,
                ),
            ),
        ),
    ensures
        ({
            let source = be32(
                bytes.subrange(ETH_HDR_LEN + IPV4_SRC_OFFSET, ETH_HDR_LEN + IPV4_SRC_OFFSET + 4),
            );
            let first = rate_limit_step(bytes, table, capacity, now);
            let second = rate_limit_step(bytes, first.1, capacity, now);
            &&& first.1 == table.insert(source, RateLimit { tokens: 1, last_token_grant: now })
            &&& second.0 == Ok::<FilterResult, RateLimitError>(FilterResult::Drop)
            &&& second.1 == first.1
        }),
{
    let source = be32(
        bytes.subrange(ETH_HDR_LEN + IPV4_SRC_OFFSET, ETH_HDR_LEN + IPV4_SRC_OFFSET + 4),
    );
    let first = rate_limit_step(bytes, table, capacity, now);
    let bucket = RateLimit { tokens: 1, last_token_grant: now };
    assert(first.1 == table.insert(source, bucket));
    assert(first.1.insert(source, bucket) =~= first.1);
}

/// A bucket never holds more than three tokens once it has gained any, and
/// paying never adds tokens.
pub proof fn lemma_bucket_bounded(bucket: RateLimit, now: u64)
    ensures
        bucket.tokens <= MAX_TOKENS ==> bucket.spec_granted(now).tokens <= MAX_TOKENS,
        bucket.spec_elapsed_seconds(now) > 0 ==> bucket.spec_granted(now).tokens <= MAX_TOKENS,
        bucket.spec_spent().tokens <= bucket.tokens,
{
}

} // verus!
