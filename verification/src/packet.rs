//! The packet as a program sees it: an owned byte buffer whose every access
//! is checked against the buffer's current length.

use vstd::prelude::*;
use vstd::slice::slice_subrange;

verus! {

/// An access would have reached past the end of the packet.
#[derive(Copy, Clone, Debug, PartialEq, Eq, Structural)]
pub struct BoundsError;

/// A request to grow or shrink the packet could not be met.
#[derive(Copy, Clone, Debug, PartialEq, Eq, Structural)]
pub struct ResizeError;

/// The longest slice that `get_slice` hands out.
pub const MAX_SLICE_LEN: usize = 50000;

/// One packet on its way through a program, and the input it arrived on.
#[derive(Debug)]
pub struct BpfContext {
    pub data: Vec<u8>,
    pub port: u32,
}

/// The packet handed to a filtering program at its entry point.
#[derive(Debug)]
pub struct BPFilterContext {
    pub packet: BpfContext,
}

/// The packet handed to a classifying program at its entry point.
#[derive(Debug)]
pub struct ClassifierContext {
    pub packet: BpfContext,
}

/// The packet handed to a rewriting program at its entry point. Only this
/// role changes the packet's length.
#[derive(Debug)]
pub struct RewriterContext {
    pub packet: BpfContext,
}

/// Whether `size` bytes at `offset` lie inside a packet of `len` bytes.
pub open spec fn in_bounds(len: nat, offset: int, size: int) -> bool {
    0 <= offset && 0 <= size && offset + size <= len
}

/// The number that two bytes in network order stand for.
pub open spec fn be16(b: Seq<u8>) -> u16
    recommends
        b.len() == 2,
{
    (b[0] * 256 + b[1]) as u16
}

/// The number that four bytes in network order stand for.
pub open spec fn be32(b: Seq<u8>) -> u32
    recommends
        b.len() == 4,
{
    (b[0] * 16777216 + b[1] * 65536 + b[2] * 256 + b[3]) as u32
}

/// The two bytes that stand for `v` in network order.
pub open spec fn be16_bytes(v: u16) -> Seq<u8> {
    seq![(v / 256) as u8, (v % 256) as u8]
}

/// The four bytes that stand for `v` in network order.
pub open spec fn be32_bytes(v: u32) -> Seq<u8> {
    seq![
        (v / 16777216) as u8,
        ((v / 65536) % 256) as u8,
        ((v / 256) % 256) as u8,
        (v % 256) as u8,
    ]
}

/// `bytes` with the bytes of `value` in place of those from `offset` on.
pub open spec fn overwritten(bytes: Seq<u8>, offset: int, value: Seq<u8>) -> Seq<u8>
    recommends
        in_bounds(bytes.len(), offset, value.len() as int),
{
    Seq::new(
        bytes.len(),
        |i: int|
            if offset <= i < offset + value.len() {
                value[i - offset]
            } else {
                bytes[i]
            },
    )
}

/// Whether a packet of `len` bytes can take `head` more bytes in front and
/// `tail` more at its end, a negative number taking bytes away.
pub open spec fn can_resize(len: nat, head: int, tail: int) -> bool {
    &&& len + head >= 0
    &&& len + head + tail >= 0
    &&& len + head + tail <= usize::MAX
}

/// The packet after `head` bytes were added in front and `tail` at its end.
/// Added bytes are zero; a negative number takes bytes away.
pub open spec fn resized(bytes: Seq<u8>, head: int, tail: int) -> Seq<u8>
    recommends
        can_resize(bytes.len(), head, tail),
{
    let new_len = bytes.len() + head + tail;
    Seq::new(
        new_len as nat,
        |i: int|
            if 0 <= i - head < bytes.len() {
                bytes[i - head]
            } else {
                0u8
            },
    )
}

impl BpfContext {
    /// The packet's bytes.
    pub open spec fn bytes(&self) -> Seq<u8> {
        self.data@
    }

    /// A view of `data`, arrived on input `port`.
    pub fn new(data: Vec<u8>, port: u32) -> (ctx: BpfContext)
        ensures
            ctx.bytes() == data@,
            ctx.port == port,
    {
        BpfContext { data, port }
    }

    /// The packet's current length.
    pub fn len(&self) -> (n: usize)
        ensures
            n == self.bytes().len(),
    {
        self.data.len()
    }

    /// The `size` bytes at `offset`, if they lie inside the packet.
    pub fn get_ptr(&self, offset: usize, size: usize) -> (r: Result<&[u8], BoundsError>)
        ensures
            match r {
                Ok(window) => in_bounds(self.bytes().len(), offset as int, size as int)
                    && window@ == self.bytes().subrange(offset as int, offset + size),
                Err(_) => !in_bounds(self.bytes().len(), offset as int, size as int),
            },
    {
        let len = self.data.len();
        match offset.checked_add(size) {
            None => Err(BoundsError),
            Some(end) => {
                if end > len {
                    Err(BoundsError)
                } else {
                    Ok(slice_subrange(self.data.as_slice(), offset, end))
                }
            },
        }
    }

    /// Puts `value` in place of the bytes at `offset`, if they lie inside the
    /// packet. Otherwise the packet stays as it is.
    pub fn get_ptr_mut(&mut self, offset: usize, value: &[u8]) -> (r: Result<(), BoundsError>)
        ensures
            final(self).port == old(self).port,
            match r {
                Ok(_) => in_bounds(old(self).bytes().len(), offset as int, value@.len() as int)
                    && final(self).bytes() == overwritten(old(self).bytes(), offset as int, value@),
                Err(_) => !in_bounds(old(self).bytes().len(), offset as int, value@.len() as int)
                    && final(self).bytes() == old(self).bytes(),
            },
    {
        let size = value.len();
        let len = self.data.len();
        match offset.checked_add(size) {
            None => Err(BoundsError),
            Some(end) => {
                if end > len {
                    return Err(BoundsError);
                }
                let mut i: usize = 0;
                while i < size
                    invariant
                        i <= size,
                        size == value@.len(),
                        end == offset + size,
                        offset + size <= self.data@.len(),
                        self.port == old(self).port,
                        self.data@.len() == old(self).data@.len(),
                        forall|k: int|
                            0 <= k < self.data@.len() ==> #[trigger] self.data@[k] == (if offset <= k
                                < offset + i {
                                value@[k - offset]
                            } else {
                                old(self).data@[k]
                            }),
                    decreases size - i,
                {
                    self.data[offset + i] = value[i];
                    i += 1;
                }
                assert(self.data@ =~= overwritten(old(self).data@, offset as int, value@));
                Ok(())
            },
        }
    }

    /// The `len` bytes at `offset`, if they lie inside the packet and `len` is
    /// at most `MAX_SLICE_LEN`.
    pub fn get_slice(&self, len: usize, offset: usize) -> (r: Result<&[u8], BoundsError>)
        ensures
            match r {
                Ok(window) => len <= MAX_SLICE_LEN && in_bounds(
                    self.bytes().len(),
                    offset as int,
                    len as int,
                ) && window@ == self.bytes().subrange(offset as int, offset + len),
                Err(_) => len > MAX_SLICE_LEN || !in_bounds(
                    self.bytes().len(),
                    offset as int,
                    len as int,
                ),
            },
    {
        if len > MAX_SLICE_LEN {
            return Err(BoundsError);
        }
        self.get_ptr(offset, len)
    }

    /// The byte at `offset`.
    pub fn read_u8(&self, offset: usize) -> (r: Result<u8, BoundsError>)
        ensures
            match r {
                Ok(v) => in_bounds(self.bytes().len(), offset as int, 1) && v == self.bytes()[
                    offset as int
                ],
                Err(_) => !in_bounds(self.bytes().len(), offset as int, 1),
            },
    {
        match self.get_ptr(offset, 1) {
            Ok(w) => Ok(w[0]),
            Err(e) => Err(e),
        }
    }

    /// The number in network order in the two bytes at `offset`.
    pub fn read_u16(&self, offset: usize) -> (r: Result<u16, BoundsError>)
        ensures
            match r {
                Ok(v) => in_bounds(self.bytes().len(), offset as int, 2) && v == be16(
                    self.bytes().subrange(offset as int, offset + 2),
                ),
                Err(_) => !in_bounds(self.bytes().len(), offset as int, 2),
            },
    {
        match self.get_ptr(offset, 2) {
            Ok(w) => {
                let hi: u16 = w[0] as u16;
                let lo: u16 = w[1] as u16;
                Ok(hi * 256 + lo)
            },
            Err(e) => Err(e),
        }
    }

    /// The number in network order in the four bytes at `offset`.
    pub fn read_u32(&self, offset: usize) -> (r: Result<u32, BoundsError>)
        ensures
            match r {
                Ok(v) => in_bounds(self.bytes().len(), offset as int, 4) && v == be32(
                    self.bytes().subrange(offset as int, offset + 4),
                ),
                Err(_) => !in_bounds(self.bytes().len(), offset as int, 4),
            },
    {
        match self.get_ptr(offset, 4) {
            Ok(w) => {
                let b0: u32 = w[0] as u32;
                let b1: u32 = w[1] as u32;
                let b2: u32 = w[2] as u32;
                let b3: u32 = w[3] as u32;
                Ok(b0 * 16777216 + b1 * 65536 + b2 * 256 + b3)
            },
            Err(e) => Err(e),
        }
    }

    /// Adds `delta_head` bytes in front of the packet and `delta_tail` at its
    /// end; a negative number takes bytes away. Added bytes are zero. Where
    /// the packet holds too few bytes to take away, or would grow past what
    /// the machine can address, the packet stays as it is.
    pub fn resize(&mut self, delta_head: i32, delta_tail: i32) -> (r: Result<(), ResizeError>)
        ensures
            final(self).port == old(self).port,
            match r {
                Ok(_) => can_resize(old(self).bytes().len(), delta_head as int, delta_tail as int)
                    && final(self).bytes() == resized(
                    old(self).bytes(),
                    delta_head as int,
                    delta_tail as int,
                ),
                Err(_) => !can_resize(
                    old(self).bytes().len(),
                    delta_head as int,
                    delta_tail as int,
                ) && final(self).bytes() == old(self).bytes(),
            },
    {
        let len = self.data.len();
        let old_len: i128 = len as i128;
        let with_head: i128 = old_len + delta_head as i128;
        let target: i128 = with_head + delta_tail as i128;
        if with_head < 0 || target < 0 || target > usize::MAX as i128 {
            return Err(ResizeError);
        }
        let new_len: usize = target as usize;
        let mut out: Vec<u8> = Vec::new();
        let mut i: usize = 0;
        while i < new_len
            invariant
                i <= new_len,
                len == self.data@.len(),
                old_len == len,
                out@.len() == i,
                forall|k: int|
                    0 <= k < i ==> #[trigger] out@[k] == (if 0 <= k - delta_head < len {
                        self.data@[k - delta_head]
                    } else {
                        0u8
                    }),
            decreases new_len - i,
        {
            let src: i128 = i as i128 - delta_head as i128;
            let b: u8 = if 0 <= src && src < old_len {
                self.data[src as usize]
            } else {
                0
            };
            out.push(b);
            i += 1;
        }
        assert(out@ =~= resized(self.data@, delta_head as int, delta_tail as int));
        self.data = out;
        Ok(())
    }

    /// Writes `value` at `offset`, or leaves the packet as it is.
    pub fn write_u8(&mut self, offset: usize, value: u8) -> (r: Result<(), BoundsError>)
        ensures
            final(self).port == old(self).port,
            match r {
                Ok(_) => in_bounds(old(self).bytes().len(), offset as int, 1) && final(self).bytes() == overwritten(old(self).bytes(), offset as int, seq![value]),
                Err(_) => !in_bounds(old(self).bytes().len(), offset as int, 1) && final(self).bytes() == old(self).bytes(),
            },
    {
        let buf: [u8; 1] = [value];
        assert(buf@ =~= seq![value]);
        self.get_ptr_mut(offset, buf.as_slice())
    }

    /// Writes `value` in network order at `offset`, or leaves the packet as it
    /// is.
    pub fn write_u16(&mut self, offset: usize, value: u16) -> (r: Result<(), BoundsError>)
        ensures
            final(self).port == old(self).port,
            match r {
                Ok(_) => in_bounds(old(self).bytes().len(), offset as int, 2) && final(self).bytes() == overwritten(old(self).bytes(), offset as int, be16_bytes(value)),
                Err(_) => !in_bounds(old(self).bytes().len(), offset as int, 2) && final(self).bytes() == old(self).bytes(),
            },
    {
        let buf: [u8; 2] = [(value / 256) as u8, (value % 256) as u8];
        assert(buf@ =~= be16_bytes(value));
        self.get_ptr_mut(offset, buf.as_slice())
    }

    /// Writes `value` in network order at `offset`, or leaves the packet as it
    /// is.
    pub fn write_u32(&mut self, offset: usize, value: u32) -> (r: Result<(), BoundsError>)
        ensures
            final(self).port == old(self).port,
            match r {
                Ok(_) => in_bounds(old(self).bytes().len(), offset as int, 4) && final(self).bytes() == overwritten(old(self).bytes(), offset as int, be32_bytes(value)),
                Err(_) => !in_bounds(old(self).bytes().len(), offset as int, 4) && final(self).bytes() == old(self).bytes(),
            },
    {
        let buf: [u8; 4] = [
            (value / 16777216) as u8,
            ((value / 65536) % 256) as u8,
            ((value / 256) % 256) as u8,
            (value % 256) as u8,
        ];
        assert(buf@ =~= be32_bytes(value));
        self.get_ptr_mut(offset, buf.as_slice())
    }
}

/// Makes room in the packet of a rewriting program, or takes bytes away:
/// `head_len` bytes in front and `tail_len` at the end, as `BpfContext::resize`
/// does. Every slice taken from the packet before the call has ended by then.
pub fn bpf_packet_add_space(ctx: &mut BpfContext, head_len: i32, tail_len: i32) -> (r: Result<
    (),
    ResizeError,
>)
    ensures
        final(ctx).port == old(ctx).port,
        match r {
            Ok(_) => can_resize(old(ctx).bytes().len(), head_len as int, tail_len as int)
                && final(ctx).bytes() == resized(old(ctx).bytes(), head_len as int, tail_len as int),
            Err(_) => !can_resize(old(ctx).bytes().len(), head_len as int, tail_len as int)
                && final(ctx).bytes() == old(ctx).bytes(),
        },
{
    ctx.resize(head_len, tail_len)
}

/// Reading back what was written gives the value written: for two bytes in
/// network order.
pub proof fn lemma_be16_round_trip(v: u16)
    ensures
        be16_bytes(v).len() == 2,
        be16(be16_bytes(v)) == v,
{
}

/// Reading back what was written gives the value written: for four bytes in
/// network order.
pub proof fn lemma_be32_round_trip(v: u32)
    ensures
        be32_bytes(v).len() == 4,
        be32(be32_bytes(v)) == v,
{
}

/// A write inside the packet keeps the packet's length, and a read of the
/// same place afterwards sees what was written.
pub proof fn lemma_overwritten_window(bytes: Seq<u8>, offset: int, value: Seq<u8>)
    requires
        in_bounds(bytes.len(), offset, value.len() as int),
    ensures
        overwritten(bytes, offset, value).len() == bytes.len(),
        overwritten(bytes, offset, value).subrange(offset, offset + value.len()) == value,
{
    assert(overwritten(bytes, offset, value).subrange(offset, offset + value.len()) =~= value);
}

/// An access that was inside the packet before it shrank and lies outside
/// afterwards is refused: every access is held against the length of the
/// moment.
pub proof fn lemma_resize_bounds(bytes: Seq<u8>, head: int, tail: int, offset: int, size: int)
    requires
        can_resize(bytes.len(), head, tail),
    ensures
        resized(bytes, head, tail).len() == bytes.len() + head + tail,
        in_bounds(resized(bytes, head, tail).len(), offset, size) <==> (0 <= offset && 0 <= size
            && offset + size <= bytes.len() + head + tail),
        forall|i: int|
            0 <= i < bytes.len() + head + tail && 0 <= i - head < bytes.len() ==> resized(
                bytes,
                head,
                tail,
            )[i] == bytes[i - head],
{
}

} // verus!
