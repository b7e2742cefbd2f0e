//! Keeping an Internet checksum right when a field it covers changes,
//! without adding up the packet again.

use vstd::prelude::*;

verus! {

/// A sum of at most three words of sixteen bits brought back to sixteen bits,
/// what went over the top added in again at the bottom.
pub open spec fn fold16(sum: int) -> int
    recommends
        0 <= sum <= 0x2fffd,
{
    if sum <= 0xffff {
        sum
    } else if sum <= 0x1fffe {
        sum - 0xffff
    } else {
        sum - 0x1fffe
    }
}

/// The checksum of a packet in which a word `old_word` covered by `checksum`
/// has become `new_word`: the complement of the folded sum of the checksum's
/// complement, the old word's complement and the new word.
pub open spec fn spec_update_checksum(checksum: u16, old_word: u16, new_word: u16) -> u16 {
    (0xffff - fold16((0xffff - checksum) + (0xffff - old_word) + new_word)) as u16
}

/// The checksum of a packet in which thirty-two bits have changed from
/// `old_word` to `new_word`: updated for the upper halves, then for the lower.
pub open spec fn spec_update_checksum_ip(checksum: u16, old_word: u32, new_word: u32) -> u16 {
    spec_update_checksum(
        spec_update_checksum(checksum, (old_word / 0x10000) as u16, (new_word / 0x10000) as u16),
        (old_word % 0x10000) as u16,
        (new_word % 0x10000) as u16,
    )
}

/// Brings `checksum` up to date after a word that it covers changed from
/// `old_word` to `new_word`.
pub fn update_checksum(checksum: &mut u16, old_word: u16, new_word: u16)
    ensures
        *final(checksum) == spec_update_checksum(*old(checksum), old_word, new_word),
{
    let c: u16 = *checksum;
    let not_c: u16 = !c;
    let not_old: u16 = !old_word;
    assert(not_c == 0xffff - c) by (bit_vector)
        requires
            not_c == !c,
    ;
    assert(not_old == 0xffff - old_word) by (bit_vector)
        requires
            not_old == !old_word,
    ;
    let sum: u32 = not_c as u32 + not_old as u32 + new_word as u32;
    let low: u32 = sum & 0xffff;
    let high: u32 = sum >> 16;
    assert(low == sum % 0x10000 && high == sum / 0x10000) by (bit_vector)
        requires
            low == sum & 0xffff,
            high == sum >> 16,
    ;
    let once: u32 = low + high;
    let carry: u32 = once >> 16;
    assert(carry == once / 0x10000) by (bit_vector)
        requires
            carry == once >> 16,
    ;
    let twice: u32 = once + carry;
    let folded: u16 = (twice % 0x10000) as u16;
    assert(folded == fold16(sum as int));
    let updated: u16 = !folded;
    assert(updated == 0xffff - folded) by (bit_vector)
        requires
            updated == !folded,
    ;
    *checksum = updated;
}

/// Brings `checksum` up to date after thirty-two bits that it covers changed
/// from `old_word` to `new_word`.
pub fn update_checksum_ip(checksum: &mut u16, old_word: u32, new_word: u32)
    ensures
        *final(checksum) == spec_update_checksum_ip(*old(checksum), old_word, new_word),
{
    let old1: u16 = (old_word / 0x10000) as u16;
    let old2: u16 = (old_word % 0x10000) as u16;
    let new1: u16 = (new_word / 0x10000) as u16;
    let new2: u16 = (new_word % 0x10000) as u16;
    update_checksum(checksum, old1, new1);
    update_checksum(checksum, old2, new2);
}

/// A word that does not change leaves a checksum as it is. The one
/// exception is a checksum of 0xffff, the other way to write zero, which
/// becomes 0.
pub proof fn lemma_same_word_keeps_checksum(checksum: u16, word: u16)
    ensures
        checksum != 0xffff ==> spec_update_checksum(checksum, word, word) == checksum,
        checksum == 0xffff ==> spec_update_checksum(checksum, word, word) == 0,
{
}

} // verus!
