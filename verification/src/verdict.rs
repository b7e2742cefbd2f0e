//! What a program says of a packet, one type for each role, and the integer
//! that stands for each verdict at the boundary to the host router.

use vstd::prelude::*;

verus! {

/// Verdict of a program that filters.
#[derive(Copy, Clone, Debug, PartialEq, Eq, Structural)]
pub enum FilterResult {
    Abort,
    Pass,
    Drop,
}

/// Verdict of a program that rewrites.
#[derive(Copy, Clone, Debug, PartialEq, Eq, Structural)]
pub enum RewriterResult {
    Abort,
    Success,
}

/// Which transport a packet carries, as the protocol classifier sees it.
#[derive(Copy, Clone, Debug, PartialEq, Eq, Structural)]
pub enum ClassifyResult {
    Udp,
    Tcp,
    Rest,
}

/// Action code of a kernel-style packet filter: the program failed.
pub const XDP_ABORTED: u32 = 0;

/// Action code of a kernel-style packet filter: discard the packet.
pub const XDP_DROP: u32 = 1;

/// Action code of a kernel-style packet filter: let the packet through.
pub const XDP_PASS: u32 = 2;

impl FilterResult {
    /// The integer handed to the host router.
    pub open spec fn spec_code(self) -> u32 {
        match self {
            FilterResult::Abort => 0,
            FilterResult::Pass => 1,
            FilterResult::Drop => 2,
        }
    }

    /// The integer handed to the host router: 0 for `Abort`, 1 for `Pass`,
    /// 2 for `Drop`.
    pub fn code(self) -> (c: u32)
        ensures
            c == self.spec_code(),
    {
        match self {
            FilterResult::Abort => 0,
            FilterResult::Pass => 1,
            FilterResult::Drop => 2,
        }
    }

    /// The verdict that an integer of the host router stands for, if any.
    pub fn from_code(code: u32) -> (r: Option<FilterResult>)
        ensures
            match r {
                Some(v) => v.spec_code() == code,
                None => code > 2,
            },
    {
        if code == 0 {
            Some(FilterResult::Abort)
        } else if code == 1 {
            Some(FilterResult::Pass)
        } else if code == 2 {
            Some(FilterResult::Drop)
        } else {
            None
        }
    }

    /// Whether the packet goes on. A caller treats `Abort` as it treats `Drop`.
    pub open spec fn spec_admits(self) -> bool {
        self == FilterResult::Pass
    }

    /// Whether the packet goes on: only `Pass` lets it through.
    pub fn admits(self) -> (b: bool)
        ensures
            b == self.spec_admits(),
    {
        match self {
            FilterResult::Pass => true,
            _ => false,
        }
    }

    /// The action code of a kernel-style packet filter for this verdict.
    pub open spec fn spec_xdp_action(self) -> u32 {
        match self {
            FilterResult::Abort => XDP_ABORTED,
            FilterResult::Pass => XDP_PASS,
            FilterResult::Drop => XDP_DROP,
        }
    }

    /// The action code of a kernel-style packet filter for this verdict.
    pub fn xdp_action(self) -> (c: u32)
        ensures
            c == self.spec_xdp_action(),
    {
        match self {
            FilterResult::Abort => XDP_ABORTED,
            FilterResult::Pass => XDP_PASS,
            FilterResult::Drop => XDP_DROP,
        }
    }
}

impl RewriterResult {
    /// The integer handed to the host router.
    pub open spec fn spec_code(self) -> u32 {
        match self {
            RewriterResult::Abort => 0,
            RewriterResult::Success => 1,
        }
    }

    /// The integer handed to the host router: 0 for `Abort`, 1 for `Success`.
    pub fn code(self) -> (c: u32)
        ensures
            c == self.spec_code(),
    {
        match self {
            RewriterResult::Abort => 0,
            RewriterResult::Success => 1,
        }
    }
}

impl ClassifyResult {
    /// The output that a packet of this class leaves by.
    pub open spec fn spec_output_port(self) -> u32 {
        match self {
            ClassifyResult::Udp => 0,
            ClassifyResult::Tcp => 1,
            ClassifyResult::Rest => 2,
        }
    }

    /// The output that a packet of this class leaves by: 0 for UDP, 1 for
    /// TCP, 2 for everything else.
    pub fn output_port(self) -> (port: u32)
        ensures
            port == self.spec_output_port(),
    {
        match self {
            ClassifyResult::Udp => 0,
            ClassifyResult::Tcp => 1,
            ClassifyResult::Rest => 2,
        }
    }
}

} // verus!
