//! A classifier that sends packets to its outputs in turn, whatever flow they
//! belong to.

use crate::store::FixedArray;
use vstd::prelude::*;

verus! {

/// Number of outputs that `main` turns over.
pub const OUTPUTS: u32 = 2;

/// Why the classifier gave no output.
#[derive(Copy, Clone, Debug, PartialEq, Eq, Structural)]
pub enum RoundRobinError {
    /// The store of the counter has no place.
    MissingStore,
    /// There is no output to choose.
    NoOutputs,
}

/// The output that the counter's value stands for.
pub open spec fn spec_output(counter: u32, outputs: u32) -> u32
    recommends
        outputs > 0,
{
    (counter % outputs) as u32
}

/// The counter's value after a packet went to `output`.
pub open spec fn spec_advance(output: u32, outputs: u32) -> u32
    recommends
        outputs > 0,
{
    ((output + 1) % (outputs as int)) as u32
}

/// Chooses the output of one packet among `outputs` and moves the counter in
/// the first place of `counter` on by one, back to zero after the last
/// output.
pub fn try_classify(counter: &mut FixedArray<u32>, outputs: u32) -> (r: Result<
    u32,
    RoundRobinError,
>)
    ensures
        match r {
            Ok(output) => outputs > 0 && old(counter)@.len() > 0 && output == spec_output(
                old(counter)@[0],
                outputs,
            ) && output < outputs && final(counter)@ == old(counter)@.update(
                0,
                spec_advance(output, outputs),
            ),
            Err(e) => final(counter)@ == old(counter)@ && (if outputs == 0 {
                e == RoundRobinError::NoOutputs
            } else {
                e == RoundRobinError::MissingStore && old(counter)@.len() == 0
            }),
        },
{
    if outputs == 0 {
        return Err(RoundRobinError::NoOutputs);
    }
    match counter.get_mut(0) {
        None => Err(RoundRobinError::MissingStore),
        Some(slot) => {
            let output: u32 = *slot % outputs;
            let next: u32 = if output + 1 == outputs {
                0
            } else {
                output + 1
            };
            assert(next == spec_advance(output, outputs)) by {
                if output + 1 < outputs {
                    vstd::arithmetic::div_mod::lemma_small_mod((output + 1) as nat, outputs as nat);
                } else {
                    vstd::arithmetic::div_mod::lemma_mod_self_0(outputs as int);
                }
            }
            *slot = next;
            Ok(output)
        },
    }
}

/// Chooses between two outputs in turn. Without a counter the packet goes to
/// output 0.
pub fn main(counter: &mut FixedArray<u32>) -> (output: u32)
    ensures
        output < OUTPUTS,
        old(counter)@.len() > 0 ==> output == spec_output(old(counter)@[0], OUTPUTS) && final(counter)@ == old(counter)@.update(0, spec_advance(output, OUTPUTS)),
        old(counter)@.len() == 0 ==> output == 0 && final(counter)@ == old(counter)@,
{
    match try_classify(counter, OUTPUTS) {
        Ok(output) => output,
        Err(_) => 0,
    }
}

/// With a counter that starts at an output's number, the packets go to the
/// outputs in turn: each packet to the output after that of the packet
/// before, and the first output after the last.
pub proof fn lemma_outputs_in_turn(counter: u32, outputs: u32)
    requires
        outputs > 0,
    ensures
        spec_output(counter, outputs) < outputs,
        spec_advance(spec_output(counter, outputs), outputs) < outputs,
        spec_output(spec_advance(spec_output(counter, outputs), outputs), outputs) == (
        if spec_output(counter, outputs) + 1 == outputs {
            0
        } else {
            spec_output(counter, outputs) + 1
        }),
{
    let output = spec_output(counter, outputs);
    if output + 1 < outputs {
        vstd::arithmetic::div_mod::lemma_small_mod((output + 1) as nat, outputs as nat);
    } else {
        vstd::arithmetic::div_mod::lemma_mod_self_0(outputs as int);
    }
    let next = spec_advance(output, outputs);
    vstd::arithmetic::div_mod::lemma_small_mod(next as nat, outputs as nat);
}

} // verus!
