//! The datagram that asks the router to put another program into a slot: the
//! word `control`, the slot's number, and the names of the program and of
//! its signature, each behind its length. Numbers are eight bytes, lowest
//! byte first.

use vstd::arithmetic::div_mod::lemma_div_denominator;
use vstd::arithmetic::div_mod::lemma_fundamental_div_mod_converse;
use vstd::prelude::*;
use vstd::slice::slice_subrange;
use vstd::slice::slice_to_vec;

verus! {

/// Length of the word that a control datagram starts with.
pub const TAG_LEN: usize = 7;

/// Length of a number in a control datagram.
pub const FIELD_LEN: usize = 8;

/// A request to put a program into a slot.
#[derive(Debug)]
pub struct ControlMessage {
    pub slot_id: u64,
    pub program_name: Vec<u8>,
    pub signature_name: Vec<u8>,
}

/// Why a datagram is no control message.
#[derive(Copy, Clone, Debug, PartialEq, Eq, Structural)]
pub enum ControlParseError {
    /// The datagram does not start with the word `control`.
    BadTag,
    /// The datagram ends before a number or a name does.
    Truncated,
    /// Bytes follow the name of the signature.
    Trailing,
}

/// The word `control`.
pub open spec fn control_tag() -> Seq<u8> {
    seq![99u8, 111u8, 110u8, 116u8, 114u8, 111u8, 108u8]
}

/// The eight bytes that stand for `v`, lowest byte first.
#[verifier::opaque]
pub open spec fn le64_bytes(v: u64) -> Seq<u8> {
    seq![
        (v % 0x100) as u8,
        ((v / 0x100) % 0x100) as u8,
        ((v / 0x1_0000) % 0x100) as u8,
        ((v / 0x100_0000) % 0x100) as u8,
        ((v / 0x1_0000_0000) % 0x100) as u8,
        ((v / 0x100_0000_0000) % 0x100) as u8,
        ((v / 0x1_0000_0000_0000) % 0x100) as u8,
        ((v / 0x100_0000_0000_0000) % 0x100) as u8,
    ]
}

/// The number that eight bytes stand for, lowest byte first.
#[verifier::opaque]
pub open spec fn le64(b: Seq<u8>) -> u64
    recommends
        b.len() == 8,
{
    (b[0] + b[1] * 0x100 + b[2] * 0x1_0000 + b[3] * 0x100_0000 + b[4] * 0x1_0000_0000 + b[5]
        * 0x100_0000_0000 + b[6] * 0x1_0000_0000_0000 + b[7] * 0x100_0000_0000_0000) as u64
}

/// The datagram that asks for `program` with `signature` in slot `slot_id`.
pub open spec fn encoded(slot_id: u64, program: Seq<u8>, signature: Seq<u8>) -> Seq<u8>
    recommends
        program.len() <= u64::MAX,
        signature.len() <= u64::MAX,
{
    control_tag() + le64_bytes(slot_id) + le64_bytes(program.len() as u64) + program + le64_bytes(
        signature.len() as u64,
    ) + signature
}

/// What a datagram asks for: the slot, the program's name and the
/// signature's name; or why it is no control message.
pub open spec fn parsed(bytes: Seq<u8>) -> Result<(u64, Seq<u8>, Seq<u8>), ControlParseError> {
    let names = TAG_LEN + 2 * FIELD_LEN;
    if bytes.len() < TAG_LEN {
        Err(ControlParseError::Truncated)
    } else if bytes.subrange(0, TAG_LEN as int) != control_tag() {
        Err(ControlParseError::BadTag)
    } else if bytes.len() < names {
        Err(ControlParseError::Truncated)
    } else {
        let slot_id = le64(bytes.subrange(TAG_LEN as int, TAG_LEN + FIELD_LEN));
        let program_len = le64(bytes.subrange(TAG_LEN + FIELD_LEN, names)) as int;
        if bytes.len() - names < program_len + FIELD_LEN {
            Err(ControlParseError::Truncated)
        } else {
            let signature_at = names + program_len + FIELD_LEN;
            let signature_len = le64(bytes.subrange(names + program_len, signature_at)) as int;
            if bytes.len() - signature_at < signature_len {
                Err(ControlParseError::Truncated)
            } else if bytes.len() - signature_at > signature_len {
                Err(ControlParseError::Trailing)
            } else {
                Ok(
                    (
                        slot_id,
                        bytes.subrange(names, names + program_len),
                        bytes.subrange(signature_at, signature_at + signature_len),
                    ),
                )
            }
        }
    }
}

/// A number is written in eight bytes.
pub proof fn lemma_le64_bytes_len(v: u64)
    ensures
        le64_bytes(v).len() == 8,
{
    reveal(le64_bytes);
}

/// Reading the eight bytes written for a number gives the number.
pub proof fn lemma_le64_round_trip(v: u64)
    ensures
        le64_bytes(v).len() == 8,
        le64(le64_bytes(v)) == v,
{
    reveal(le64_bytes);
    reveal(le64);
    let q0 = v as int;
    let q1 = q0 / 0x100;
    let q2 = q1 / 0x100;
    let q3 = q2 / 0x100;
    let q4 = q3 / 0x100;
    let q5 = q4 / 0x100;
    let q6 = q5 / 0x100;
    let q7 = q6 / 0x100;
    lemma_div_denominator(q0, 0x100, 0x100);
    lemma_div_denominator(q0, 0x1_0000, 0x100);
    lemma_div_denominator(q0, 0x100_0000, 0x100);
    lemma_div_denominator(q0, 0x1_0000_0000, 0x100);
    lemma_div_denominator(q0, 0x100_0000_0000, 0x100);
    lemma_div_denominator(q0, 0x1_0000_0000_0000, 0x100);
    assert(q2 == q0 / 0x1_0000);
    assert(q3 == q0 / 0x100_0000);
    assert(q4 == q0 / 0x1_0000_0000);
    assert(q5 == q0 / 0x100_0000_0000);
    assert(q6 == q0 / 0x1_0000_0000_0000);
    assert(q7 == q0 / 0x100_0000_0000_0000);
    assert(q7 < 0x100);
    let b = le64_bytes(v);
    assert(b[0] == q0 % 0x100);
    assert(b[1] == q1 % 0x100);
    assert(b[2] == q2 % 0x100);
    assert(b[3] == q3 % 0x100);
    assert(b[4] == q4 % 0x100);
    assert(b[5] == q5 % 0x100);
    assert(b[6] == q6 % 0x100);
    assert(b[7] == q7);
    assert(q6 == q7 * 0x100 + b[6]);
    assert(q5 == q7 * 0x1_0000 + b[6] * 0x100 + b[5]);
    assert(q4 == q7 * 0x100_0000 + b[6] * 0x1_0000 + b[5] * 0x100 + b[4]);
    assert(q3 == q7 * 0x1_0000_0000 + b[6] * 0x100_0000 + b[5] * 0x1_0000 + b[4] * 0x100 + b[3]);
    assert(q2 == q7 * 0x100_0000_0000 + b[6] * 0x1_0000_0000 + b[5] * 0x100_0000 + b[4] * 0x1_0000
        + b[3] * 0x100 + b[2]);
    assert(q1 == q7 * 0x1_0000_0000_0000 + b[6] * 0x100_0000_0000 + b[5] * 0x1_0000_0000 + b[4]
        * 0x100_0000 + b[3] * 0x1_0000 + b[2] * 0x100 + b[1]);
    assert(q0 == q1 * 0x100 + b[0]);
}

/// Writing the number read from eight bytes gives the bytes.
pub proof fn lemma_le64_bytes_of_read(b: Seq<u8>)
    requires
        b.len() == 8,
    ensures
        le64_bytes(le64(b)) == b,
{
    reveal(le64_bytes);
    reveal(le64);
    let h7 = b[7] as int;
    let h6 = h7 * 0x100 + b[6];
    let h5 = h6 * 0x100 + b[5];
    let h4 = h5 * 0x100 + b[4];
    let h3 = h4 * 0x100 + b[3];
    let h2 = h3 * 0x100 + b[2];
    let h1 = h2 * 0x100 + b[1];
    let h0 = h1 * 0x100 + b[0];
    assert(h0 == le64(b));
    lemma_fundamental_div_mod_converse(h0, 0x100, h1, b[0] as int);
    lemma_fundamental_div_mod_converse(h1, 0x100, h2, b[1] as int);
    lemma_fundamental_div_mod_converse(h2, 0x100, h3, b[2] as int);
    lemma_fundamental_div_mod_converse(h3, 0x100, h4, b[3] as int);
    lemma_fundamental_div_mod_converse(h4, 0x100, h5, b[4] as int);
    lemma_fundamental_div_mod_converse(h5, 0x100, h6, b[5] as int);
    lemma_fundamental_div_mod_converse(h6, 0x100, h7, b[6] as int);
    lemma_div_denominator(h0, 0x100, 0x100);
    lemma_div_denominator(h0, 0x1_0000, 0x100);
    lemma_div_denominator(h0, 0x100_0000, 0x100);
    lemma_div_denominator(h0, 0x1_0000_0000, 0x100);
    lemma_div_denominator(h0, 0x100_0000_0000, 0x100);
    lemma_div_denominator(h0, 0x1_0000_0000_0000, 0x100);
    assert(h2 == h0 / 0x1_0000);
    assert(h3 == h0 / 0x100_0000);
    assert(h4 == h0 / 0x1_0000_0000);
    assert(h5 == h0 / 0x100_0000_0000);
    assert(h6 == h0 / 0x1_0000_0000_0000);
    assert(h7 == h0 / 0x100_0000_0000_0000);
    assert(le64_bytes(le64(b)) =~= b);
}

/// Appends `src` to `out`.
fn append(out: &mut Vec<u8>, src: &[u8])
    ensures
        final(out)@ == old(out)@ + src@,
{
    let mut i: usize = 0;
    while i < src.len()
        invariant
            i <= src@.len(),
            out@ == old(out)@ + src@.subrange(0, i as int),
        decreases src@.len() - i,
    {
        out.push(src[i]);
        assert(out@ =~= old(out)@ + src@.subrange(0, i + 1));
        i += 1;
    }
    assert(src@.subrange(0, i as int) =~= src@);
}

/// Appends the eight bytes of `v` to `out`, lowest byte first.
fn push_le64(out: &mut Vec<u8>, v: u64)
    ensures
        final(out)@ == old(out)@ + le64_bytes(v),
{
    proof {
        reveal(le64_bytes);
    }
    out.push((v % 0x100) as u8);
    out.push(((v / 0x100) % 0x100) as u8);
    out.push(((v / 0x1_0000) % 0x100) as u8);
    out.push(((v / 0x100_0000) % 0x100) as u8);
    out.push(((v / 0x1_0000_0000) % 0x100) as u8);
    out.push(((v / 0x100_0000_0000) % 0x100) as u8);
    out.push(((v / 0x1_0000_0000_0000) % 0x100) as u8);
    out.push(((v / 0x100_0000_0000_0000) % 0x100) as u8);
    assert(out@ =~= old(out)@ + le64_bytes(v));
}

/// The number in the eight bytes at `offset`, lowest byte first.
fn read_le64(bytes: &[u8], offset: usize) -> (v: u64)
    requires
        offset + FIELD_LEN <= bytes@.len(),
    ensures
        v == le64(bytes@.subrange(offset as int, offset + FIELD_LEN)),
{
    proof {
        reveal(le64);
    }
    let b0: u64 = bytes[offset] as u64;
    let b1: u64 = bytes[offset + 1] as u64;
    let b2: u64 = bytes[offset + 2] as u64;
    let b3: u64 = bytes[offset + 3] as u64;
    let b4: u64 = bytes[offset + 4] as u64;
    let b5: u64 = bytes[offset + 5] as u64;
    let b6: u64 = bytes[offset + 6] as u64;
    let b7: u64 = bytes[offset + 7] as u64;
    b0 + b1 * 0x100 + b2 * 0x1_0000 + b3 * 0x100_0000 + b4 * 0x1_0000_0000 + b5 * 0x100_0000_0000
        + b6 * 0x1_0000_0000_0000 + b7 * 0x100_0000_0000_0000
}

/// Whether `bytes` starts with the word `control`.
fn has_tag(bytes: &[u8]) -> (b: bool)
    requires
        bytes@.len() >= TAG_LEN,
    ensures
        b == (bytes@.subrange(0, TAG_LEN as int) == control_tag()),
{
    let tag: [u8; 7] = [99, 111, 110, 116, 114, 111, 108];
    assert(tag@ =~= control_tag());
    let mut i: usize = 0;
    while i < TAG_LEN
        invariant
            i <= TAG_LEN,
            bytes@.len() >= TAG_LEN,
            tag@ == control_tag(),
            forall|k: int| 0 <= k < i ==> bytes@[k] == tag@[k],
        decreases TAG_LEN - i,
    {
        if bytes[i] != tag[i] {
            assert(bytes@.subrange(0, TAG_LEN as int)[i as int] != control_tag()[i as int]);
            return false;
        }
        i += 1;
    }
    assert(bytes@.subrange(0, TAG_LEN as int) =~= control_tag());
    true
}

impl ControlMessage {
    /// What the message asks for, as plain values.
    pub open spec fn fields(&self) -> (u64, Seq<u8>, Seq<u8>) {
        (self.slot_id, self.program_name@, self.signature_name@)
    }

    /// The datagram that carries the message.
    pub fn encode(&self) -> (datagram: Vec<u8>)
        ensures
            datagram@ == encoded(self.slot_id, self.program_name@, self.signature_name@),
    {
        let tag: [u8; 7] = [99, 111, 110, 116, 114, 111, 108];
        assert(tag@ =~= control_tag());
        let mut out: Vec<u8> = Vec::new();
        append(&mut out, tag.as_slice());
        push_le64(&mut out, self.slot_id);
        push_le64(&mut out, self.program_name.len() as u64);
        append(&mut out, self.program_name.as_slice());
        push_le64(&mut out, self.signature_name.len() as u64);
        append(&mut out, self.signature_name.as_slice());
        assert(out@ =~= encoded(self.slot_id, self.program_name@, self.signature_name@));
        out
    }

    /// Reads a datagram. It is a control message exactly where it is the
    /// word `control`, a slot, and two names of the lengths that stand
    /// before them, with nothing left over.
    pub fn parse(datagram: &[u8]) -> (r: Result<ControlMessage, ControlParseError>)
        ensures
            match r {
                Ok(message) => parsed(datagram@) == Ok::<
                    (u64, Seq<u8>, Seq<u8>),
                    ControlParseError,
                >(message.fields()),
                Err(e) => parsed(datagram@) == Err::<(u64, Seq<u8>, Seq<u8>), ControlParseError>(e),
            },
    {
        let len = datagram.len();
        if len < TAG_LEN {
            return Err(ControlParseError::Truncated);
        }
        if !has_tag(datagram) {
            return Err(ControlParseError::BadTag);
        }
        let names: usize = TAG_LEN + 2 * FIELD_LEN;
        if len < names {
            return Err(ControlParseError::Truncated);
        }
        let slot_id = read_le64(datagram, TAG_LEN);
        let program_len: u64 = read_le64(datagram, TAG_LEN + FIELD_LEN);
        let rest: usize = len - names;
        if rest < FIELD_LEN || ((rest - FIELD_LEN) as u64) < program_len {
            return Err(ControlParseError::Truncated);
        }
        let program_end: usize = names + program_len as usize;
        let signature_at: usize = program_end + FIELD_LEN;
        let signature_len: u64 = read_le64(datagram, program_end);
        let left: usize = len - signature_at;
        if (left as u64) < signature_len {
            return Err(ControlParseError::Truncated);
        }
        if left as u64 > signature_len {
            return Err(ControlParseError::Trailing);
        }
        let program_name = slice_to_vec(slice_subrange(datagram, names, program_end));
        let signature_name = slice_to_vec(slice_subrange(datagram, signature_at, len));
        Ok(ControlMessage { slot_id, program_name, signature_name })
    }
}

/// A message that was written and read again is the message written: the
/// same slot and the same two names.
pub proof fn lemma_parse_encoded(slot_id: u64, program: Seq<u8>, signature: Seq<u8>)
    requires
        program.len() <= u64::MAX,
        signature.len() <= u64::MAX,
    ensures
        parsed(encoded(slot_id, program, signature)) == Ok::<
            (u64, Seq<u8>, Seq<u8>),
            ControlParseError,
        >((slot_id, program, signature)),
{
    let bytes = encoded(slot_id, program, signature);
    let names = TAG_LEN + 2 * FIELD_LEN;
    let plen = program.len() as int;
    let slen = signature.len() as int;
    lemma_le64_bytes_len(slot_id);
    lemma_le64_bytes_len(program.len() as u64);
    lemma_le64_bytes_len(signature.len() as u64);
    assert(bytes.len() == names + plen + FIELD_LEN + slen);
    assert(bytes.subrange(0, TAG_LEN as int) =~= control_tag());
    assert(bytes.subrange(TAG_LEN as int, TAG_LEN + FIELD_LEN) =~= le64_bytes(slot_id));
    assert(bytes.subrange(TAG_LEN + FIELD_LEN, names) =~= le64_bytes(program.len() as u64));
    lemma_le64_round_trip(slot_id);
    lemma_le64_round_trip(program.len() as u64);
    lemma_le64_round_trip(signature.len() as u64);
    assert(bytes.subrange(names, names + plen) =~= program);
    assert(bytes.subrange(names + plen, names + plen + FIELD_LEN) =~= le64_bytes(
        signature.len() as u64,
    ));
    assert(bytes.subrange(names + plen + FIELD_LEN, names + plen + FIELD_LEN + slen)
        =~= signature);
}

/// A datagram that reads as a message is the datagram written for that
/// message: no two datagrams ask for the same thing.
pub proof fn lemma_encoded_parsed(bytes: Seq<u8>)
    requires
        parsed(bytes).is_ok(),
    ensures
        encoded(parsed(bytes).unwrap().0, parsed(bytes).unwrap().1, parsed(bytes).unwrap().2)
            == bytes,
{
    let names = TAG_LEN + 2 * FIELD_LEN;
    let m = parsed(bytes).unwrap();
    let plen = m.1.len() as int;
    let slen = m.2.len() as int;
    lemma_le64_bytes_len(m.0);
    lemma_le64_bytes_len(m.1.len() as u64);
    lemma_le64_bytes_len(m.2.len() as u64);
    lemma_le64_bytes_of_read(bytes.subrange(TAG_LEN as int, TAG_LEN + FIELD_LEN));
    lemma_le64_bytes_of_read(bytes.subrange(TAG_LEN + FIELD_LEN, names));
    lemma_le64_bytes_of_read(bytes.subrange(names + plen, names + plen + FIELD_LEN));
    assert(encoded(m.0, m.1, m.2) =~= bytes);
}

} // verus!
