//! A firewall with an empty list of rules: it reads the flow of a packet and
//! drops whatever it is.

use crate::packet::BpfContext;
use crate::programs::flow_nat::{parse_connection, spec_connection, Connection, NatError};
use crate::verdict::FilterResult;
use vstd::prelude::*;

verus! {

/// The verdict on a flow. No rule admits any.
pub open spec fn spec_verdict_for(conn: Connection) -> FilterResult {
    FilterResult::Drop
}

/// The verdict on a flow.
pub fn verdict_for(conn: &Connection) -> (r: FilterResult)
    ensures
        r == spec_verdict_for(*conn),
{
    FilterResult::Drop
}

/// Reads the packet's flow and judges it; a packet without a flow gets no
/// verdict.
pub fn try_classify(ctx: &BpfContext) -> (r: Result<FilterResult, NatError>)
    ensures
        r == (match spec_connection(ctx.bytes()) {
            Ok(conn) => Ok::<FilterResult, NatError>(spec_verdict_for(conn)),
            Err(e) => Err(e),
        }),
{
    match parse_connection(ctx) {
        Ok(conn) => Ok(verdict_for(&conn)),
        Err(e) => Err(e),
    }
}

/// Entry point of the firewall: every packet is dropped, those without a
/// verdict too.
pub fn main(ctx: &BpfContext) -> (r: FilterResult)
    ensures
        r == FilterResult::Drop,
{
    match try_classify(ctx) {
        Ok(v) => v,
        Err(_) => FilterResult::Drop,
    }
}

} // verus!
