//! The two programs that look at nothing: one lets every packet through, the
//! other drops every packet.

use crate::verdict::FilterResult;
use vstd::prelude::*;

verus! {

/// Lets the packet through.
pub fn filter() -> (r: FilterResult)
    ensures
        r == FilterResult::Pass,
{
    FilterResult::Pass
}

/// Drops the packet.
pub fn drop_all() -> (r: FilterResult)
    ensures
        r == FilterResult::Drop,
{
    FilterResult::Drop
}

} // verus!
