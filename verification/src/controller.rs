//! The slots of the router, the program and the state of each, and the two
//! things that happen to a slot: a packet is handed to its program, or its
//! program is replaced between two packets.

use crate::control::{parsed, ControlMessage, ControlParseError};
use crate::packet::BpfContext;
use crate::headers::ETH_HDR_LEN;
use crate::programs::basic;
use crate::programs::catalog::{Program, Role};
use crate::programs::ether_mirror;
use crate::programs::firewall;
use crate::programs::flow_nat;
use crate::programs::flow_nat::Rewrite;
use crate::programs::rate_limiter;
use crate::programs::rate_limiter::RateLimit;
use crate::programs::round_robin;
use crate::programs::state_migration;
use crate::programs::state_migration::MigrationError;
use crate::programs::stringmatcher;
use crate::programs::strip_ether_vlan_header;
use crate::programs::target_port;
use crate::programs::udp_tcp_classifier;
use crate::store::{BoundedMap, FixedArray};
use crate::verdict::{ClassifyResult, FilterResult, RewriterResult};
use vstd::prelude::*;

verus! {

broadcast use vstd::std_specs::hash::group_hash_axioms;

/// What came of a packet in a slot.
#[derive(Copy, Clone, Debug, PartialEq, Eq, Structural)]
pub enum Verdict {
    /// A filter's verdict.
    Filter(FilterResult),
    /// The output that a classifier chose.
    Classifier(u32),
    /// A rewriter's verdict.
    Rewriter(RewriterResult),
    /// No program ran, or a classifier gave no output. The packet is dropped.
    Abort,
}

impl Verdict {
    /// Whether the packet goes on. Everything that is no plain success stops
    /// it.
    pub open spec fn spec_forwards(self) -> bool {
        match self {
            Verdict::Filter(v) => v == FilterResult::Pass,
            Verdict::Classifier(_) => true,
            Verdict::Rewriter(v) => v == RewriterResult::Success,
            Verdict::Abort => false,
        }
    }

    /// Whether the packet goes on.
    pub fn forwards(self) -> (b: bool)
        ensures
            b == self.spec_forwards(),
    {
        match self {
            Verdict::Filter(FilterResult::Pass) => true,
            Verdict::Classifier(_) => true,
            Verdict::Rewriter(RewriterResult::Success) => true,
            _ => false,
        }
    }

    /// The integer handed to the host router, where the verdict has one: a
    /// filter's or rewriter's code, or a classifier's output.
    pub open spec fn spec_code(self) -> Option<u32> {
        match self {
            Verdict::Filter(v) => Some(v.spec_code()),
            Verdict::Classifier(output) => Some(output),
            Verdict::Rewriter(v) => Some(v.spec_code()),
            Verdict::Abort => None,
        }
    }

    /// The integer handed to the host router, where the verdict has one.
    pub fn code(self) -> (c: Option<u32>)
        ensures
            c == self.spec_code(),
    {
        match self {
            Verdict::Filter(v) => Some(v.code()),
            Verdict::Classifier(output) => Some(output),
            Verdict::Rewriter(v) => Some(v.code()),
            Verdict::Abort => None,
        }
    }
}

/// The state that the programs of one slot keep between packets. It stays
/// when the slot's program is replaced.
#[derive(Debug)]
pub struct Stores {
    /// The rate limiter's bucket for each source address.
    pub rate_limits: BoundedMap<u32, RateLimit>,
    /// The NAT's rule for each flow.
    pub connections: BoundedMap<u128, Rewrite>,
    /// The NAT's next port.
    pub next_port: FixedArray<u32>,
    /// The round-robin classifier's counter.
    pub pkt_counter: FixedArray<u32>,
    /// The packet counter of the first version, where it is still there.
    pub packet_ctr_v1: Option<FixedArray<u32>>,
    /// The packet counter of the second version.
    pub packet_ctr_v2: FixedArray<u64>,
    /// The version of the packet counter's state.
    pub version: FixedArray<u64>,
}

/// What the stores of a slot hold.
pub struct StoresView {
    pub rate_limits: Map<u32, RateLimit>,
    pub rate_capacity: nat,
    pub connections: Map<u128, Rewrite>,
    pub connection_capacity: nat,
    pub next_port: Seq<u32>,
    pub pkt_counter: Seq<u32>,
    pub packet_ctr_v1: Option<Seq<u32>>,
    pub packet_ctr_v2: Seq<u64>,
    pub version: Seq<u64>,
}

impl View for Stores {
    type V = StoresView;

    open spec fn view(&self) -> StoresView {
        StoresView {
            rate_limits: self.rate_limits@,
            rate_capacity: self.rate_limits.spec_capacity(),
            connections: self.connections@,
            connection_capacity: self.connections.spec_capacity(),
            next_port: self.next_port@,
            pkt_counter: self.pkt_counter@,
            packet_ctr_v1: match self.packet_ctr_v1 {
                Some(a) => Some(a@),
                None => None,
            },
            packet_ctr_v2: self.packet_ctr_v2@,
            version: self.version@,
        }
    }
}

impl Stores {
    /// Both maps are well formed.
    pub open spec fn wf(&self) -> bool {
        self.rate_limits.wf() && self.connections.wf()
    }

    /// Fresh stores: empty maps of the capacities that the programs ask
    /// for, and every counter at zero.
    pub fn new() -> (s: Stores)
        ensures
            s.wf(),
            s@.rate_limits == Map::<u32, RateLimit>::empty(),
            s@.rate_capacity == rate_limiter::SOURCES_CAPACITY,
            s@.connections == Map::<u128, Rewrite>::empty(),
            s@.connection_capacity == flow_nat::CONNECTIONS_CAPACITY,
            s@.next_port == seq![0u32],
            s@.pkt_counter == seq![0u32],
            s@.packet_ctr_v1 == Some(seq![0u32]),
            s@.packet_ctr_v2 == seq![0u64],
            s@.version == seq![0u64],
    {
        let s = Stores {
            rate_limits: BoundedMap::new(rate_limiter::SOURCES_CAPACITY),
            connections: BoundedMap::new(flow_nat::CONNECTIONS_CAPACITY),
            next_port: FixedArray::new(1, 0),
            pkt_counter: FixedArray::new(1, 0),
            packet_ctr_v1: Some(FixedArray::new(1, 0)),
            packet_ctr_v2: FixedArray::new(1, 0),
            version: FixedArray::new(1, 0),
        };
        assert(s@.next_port =~= seq![0u32]);
        assert(s@.pkt_counter =~= seq![0u32]);
        assert(s@.packet_ctr_v1.unwrap() =~= seq![0u32]);
        assert(s@.packet_ctr_v2 =~= seq![0u64]);
        assert(s@.version =~= seq![0u64]);
        s
    }
}

/// What a filter's answer comes to: without an answer the packet is aborted.
pub open spec fn filter_verdict<E>(r: Result<FilterResult, E>) -> Verdict {
    match r {
        Ok(v) => Verdict::Filter(v),
        Err(_) => Verdict::Filter(FilterResult::Abort),
    }
}

/// What a program does with a packet that arrived on input `port` at time
/// `now`: the verdict, the packet afterwards and the stores afterwards.
pub open spec fn run_step(program: Program, bytes: Seq<u8>, port: u32, stores: StoresView, now: u64)
    -> (Verdict, Seq<u8>, StoresView) {
    match program {
        Program::Pass => (Verdict::Filter(FilterResult::Pass), bytes, stores),
        Program::Drop => (Verdict::Filter(FilterResult::Drop), bytes, stores),
        Program::TargetPort => (Verdict::Filter(target_port::spec_main(bytes)), bytes, stores),
        Program::RateLimiter => {
            let step = rate_limiter::rate_limit_step(
                bytes,
                stores.rate_limits,
                stores.rate_capacity,
                now,
            );
            (filter_verdict(step.0), bytes, StoresView { rate_limits: step.1, ..stores })
        },
        Program::StringMatcher => (Verdict::Filter(stringmatcher::match_step(bytes)), bytes, stores),
        Program::Firewall => (Verdict::Filter(FilterResult::Drop), bytes, stores),
        Program::StateMigrationV1 => match stores.packet_ctr_v1 {
            Some(counter) => if counter.len() == 0 {
                (Verdict::Filter(FilterResult::Abort), bytes, stores)
            } else {
                let count = state_migration::bumped32(counter[0]);
                (
                    Verdict::Filter(state_migration::verdict_at(count as u64)),
                    bytes,
                    StoresView { packet_ctr_v1: Some(counter.update(0, count)), ..stores },
                )
            },
            None => (Verdict::Filter(FilterResult::Abort), bytes, stores),
        },
        Program::StateMigrationV2 => {
            let step = state_migration::v2_step(
                stores.version,
                stores.packet_ctr_v1,
                stores.packet_ctr_v2,
            );
            (
                Verdict::Filter(step.0),
                bytes,
                StoresView { version: step.1, packet_ctr_v2: step.2, ..stores },
            )
        },
        Program::RoundRobin => if stores.pkt_counter.len() == 0 {
            (Verdict::Classifier(0), bytes, stores)
        } else {
            let output = round_robin::spec_output(stores.pkt_counter[0], round_robin::OUTPUTS);
            (
                Verdict::Classifier(output),
                bytes,
                StoresView {
                    pkt_counter: stores.pkt_counter.update(
                        0,
                        round_robin::spec_advance(output, round_robin::OUTPUTS),
                    ),
                    ..stores
                },
            )
        },
        Program::Nat => {
            let step = flow_nat::nat_step(
                bytes,
                port,
                stores.connections,
                stores.connection_capacity,
                stores.next_port,
            );
            (
                match step.0 {
                    Ok(output) => Verdict::Classifier(output),
                    Err(_) => Verdict::Abort,
                },
                step.1,
                StoresView { connections: step.2, next_port: step.3, ..stores },
            )
        },
        Program::UdpTcpClassifier => (
            Verdict::Classifier(udp_tcp_classifier::spec_class(bytes).spec_output_port()),
            bytes,
            stores,
        ),
        Program::EtherMirror => if bytes.len() >= ETH_HDR_LEN {
            (Verdict::Rewriter(RewriterResult::Success), ether_mirror::mirrored(bytes), stores)
        } else {
            (Verdict::Rewriter(RewriterResult::Abort), bytes, stores)
        },
        Program::StripEtherVlanHeader => {
            let step = strip_ether_vlan_header::strip_step(bytes);
            (
                Verdict::Rewriter(
                    if step.0.is_ok() {
                        RewriterResult::Success
                    } else {
                        RewriterResult::Abort
                    },
                ),
                step.1,
                stores,
            )
        },
    }
}

/// Runs a filter on a packet, as `run_step` says.
fn run_filter(program: Program, ctx: &BpfContext, stores: &mut Stores, now: u64) -> (v: Verdict)
    requires
        old(stores).wf(),
        program.spec_role() == Role::Filter,
    ensures
        final(stores).wf(),
        (v, ctx.bytes(), final(stores)@) == run_step(
            program,
            ctx.bytes(),
            ctx.port,
            old(stores)@,
            now,
        ),
{
    match program {
        Program::Pass => Verdict::Filter(basic::filter()),
        Program::Drop => Verdict::Filter(basic::drop_all()),
        Program::TargetPort => Verdict::Filter(target_port::main(ctx)),
        Program::RateLimiter => {
            match rate_limiter::try_filter(ctx, &mut stores.rate_limits, now) {
                Ok(v) => Verdict::Filter(v),
                Err(_) => Verdict::Filter(FilterResult::Abort),
            }
        },
        Program::StringMatcher => Verdict::Filter(stringmatcher::main(ctx)),
        Program::Firewall => Verdict::Filter(firewall::main(ctx)),
        Program::StateMigrationV1 => {
            match &mut stores.packet_ctr_v1 {
                Some(counter) => Verdict::Filter(state_migration::main_v1(counter)),
                None => Verdict::Filter(FilterResult::Abort),
            }
        },
        _ => {
            let old_counter = stores.packet_ctr_v1.as_ref();
            Verdict::Filter(
                state_migration::main_v2(
                    &mut stores.version,
                    old_counter,
                    &mut stores.packet_ctr_v2,
                ),
            )
        },
    }
}

/// Runs a classifier on a packet, as `run_step` says.
fn run_classifier(program: Program, ctx: &mut BpfContext, stores: &mut Stores) -> (v: Verdict)
    requires
        old(stores).wf(),
        program.spec_role() == Role::Classifier,
    ensures
        final(stores).wf(),
        final(ctx).port == old(ctx).port,
        (v, final(ctx).bytes(), final(stores)@) == run_step(
            program,
            old(ctx).bytes(),
            old(ctx).port,
            old(stores)@,
            0,
        ),
{
    match program {
        Program::RoundRobin => Verdict::Classifier(round_robin::main(&mut stores.pkt_counter)),
        Program::Nat => {
            match flow_nat::try_classify(ctx, &mut stores.connections, &mut stores.next_port) {
                Ok(output) => Verdict::Classifier(output),
                Err(_) => Verdict::Abort,
            }
        },
        _ => {
            match udp_tcp_classifier::try_classify(ctx) {
                Ok(c) => Verdict::Classifier(c.output_port()),
                Err(_) => Verdict::Classifier(ClassifyResult::Rest.output_port()),
            }
        },
    }
}

/// Runs a rewriter on a packet, as `run_step` says.
fn run_rewriter(program: Program, ctx: &mut BpfContext) -> (v: Verdict)
    requires
        program.spec_role() == Role::Rewriter,
    ensures
        final(ctx).port == old(ctx).port,
        forall|stores: StoresView, now: u64|
            (v, final(ctx).bytes(), stores) == #[trigger] run_step(
                program,
                old(ctx).bytes(),
                old(ctx).port,
                stores,
                now,
            ),
{
    match program {
        Program::EtherMirror => {
            match ether_mirror::try_rewrite(ctx) {
                Ok(_) => Verdict::Rewriter(RewriterResult::Success),
                Err(_) => Verdict::Rewriter(RewriterResult::Abort),
            }
        },
        _ => {
            match strip_ether_vlan_header::try_rewrite(ctx) {
                Ok(_) => Verdict::Rewriter(RewriterResult::Success),
                Err(_) => Verdict::Rewriter(RewriterResult::Abort),
            }
        },
    }
}

/// A filter and a classifier other than the NAT leave the packet as it is,
/// and a rewriter leaves the stores as they are.
pub proof fn lemma_roles_keep_apart(
    program: Program,
    bytes: Seq<u8>,
    port: u32,
    stores: StoresView,
    now: u64,
)
    ensures
        program.spec_role() == Role::Filter ==> run_step(
            program,
            bytes,
            port,
            stores,
            now,
        ).1 == bytes,
        program.spec_role() == Role::Classifier && program
            != Program::Nat ==> run_step(program, bytes, port, stores, now).1 == bytes,
        program.spec_role() == Role::Rewriter ==> run_step(
            program,
            bytes,
            port,
            stores,
            now,
        ).2 == stores,
        program.spec_role() == Role::Filter ==> run_step(
            program,
            bytes,
            port,
            stores,
            now,
        ).0 is Filter,
        program.spec_role() == Role::Rewriter ==> run_step(
            program,
            bytes,
            port,
            stores,
            now,
        ).0 is Rewriter,
{
}

/// A classifier chooses one of at most three outputs, or none.
pub proof fn lemma_outputs_bounded(
    program: Program,
    bytes: Seq<u8>,
    port: u32,
    stores: StoresView,
    now: u64,
)
    requires
        program.spec_role() == Role::Classifier,
    ensures
        match run_step(program, bytes, port, stores, now).0 {
            Verdict::Classifier(output) => output < 3,
            Verdict::Abort => program == Program::Nat,
            _ => false,
        },
{
}

/// The stores of a slot stay when its program is replaced. Only the second
/// version of the packet counter writes at that moment, and only to its own
/// counter and to the version.
pub proof fn lemma_swap_keeps_state(slot: SlotView, program: Program)
    ensures
        program != Program::StateMigrationV2 ==> swapped(slot, program).1.stores == slot.stores,
        swapped(slot, program).1.stores == (StoresView {
            version: swapped(slot, program).1.stores.version,
            packet_ctr_v2: swapped(slot, program).1.stores.packet_ctr_v2,
            ..slot.stores
        }),
        swapped(slot, program).1.id == slot.id,
{
}

/// Only the rate limiter looks at the time.
pub proof fn lemma_only_limiter_reads_clock(
    program: Program,
    bytes: Seq<u8>,
    port: u32,
    stores: StoresView,
    now: u64,
    later: u64,
)
    requires
        program != Program::RateLimiter,
    ensures
        run_step(program, bytes, port, stores, now) == run_step(program, bytes, port, stores, later),
{
}

/// Hands a packet to a program: the program runs once, from start to end,
/// on the packet and the stores, as `run_step` says.
pub fn run_program(program: Program, ctx: &mut BpfContext, stores: &mut Stores, now: u64) -> (v:
    Verdict)
    requires
        old(stores).wf(),
    ensures
        final(stores).wf(),
        final(ctx).port == old(ctx).port,
        (v, final(ctx).bytes(), final(stores)@) == run_step(
            program,
            old(ctx).bytes(),
            old(ctx).port,
            old(stores)@,
            now,
        ),
{
    match program.role() {
        Role::Filter => run_filter(program, ctx, stores, now),
        Role::Classifier => {
            proof {
                lemma_only_limiter_reads_clock(
                    program,
                    ctx.bytes(),
                    ctx.port,
                    stores@,
                    0,
                    now,
                );
            }
            run_classifier(program, ctx, stores)
        },
        Role::Rewriter => run_rewriter(program, ctx),
    }
}

/// Where a slot stands between two programs.
#[derive(Copy, Clone, Debug, PartialEq, Eq, Structural)]
pub enum SlotState {
    /// The slot's program takes packets.
    Active,
    /// The slot's program is being replaced; no packet is handed to it.
    Swapping,
    /// The last replacement failed while taking over state. The program
    /// from before is still in place and takes packets.
    Faulted,
}

/// One slot: its number, its program, its state and its stores.
#[derive(Debug)]
pub struct Slot {
    pub id: u64,
    pub program: Program,
    pub state: SlotState,
    pub stores: Stores,
}

/// What a slot holds.
pub struct SlotView {
    pub id: u64,
    pub program: Program,
    pub state: SlotState,
    pub stores: StoresView,
}

/// Why a slot's program was not replaced.
#[derive(Copy, Clone, Debug, PartialEq, Eq, Structural)]
pub enum SwapError {
    /// The router has no slot of that number.
    UnknownSlot,
    /// A replacement of the slot's program has begun and not ended.
    AlreadySwapping,
    /// No replacement of the slot's program has begun.
    NotSwapping,
    /// The new program could not take over the state of the one before.
    Migration(MigrationError),
}

/// Why a control datagram changed nothing, or left a slot faulted.
#[derive(Copy, Clone, Debug, PartialEq, Eq, Structural)]
pub enum ControlError {
    /// The datagram is no control message.
    Parse(ControlParseError),
    /// The message names no program that the router knows.
    UnknownProgram,
    /// The program was not put in place.
    Swap(SwapError),
}

/// A slot of that number exists already.
#[derive(Copy, Clone, Debug, PartialEq, Eq, Structural)]
pub struct DuplicateSlot;

impl View for Slot {
    type V = SlotView;

    open spec fn view(&self) -> SlotView {
        SlotView { id: self.id, program: self.program, state: self.state, stores: self.stores@ }
    }
}

/// What handing a packet to a slot does: the verdict, the packet afterwards
/// and the slot afterwards. A slot whose program is being replaced runs
/// nothing and aborts the packet; any other slot runs the one program that
/// it holds, once and whole.
pub open spec fn dispatched(slot: SlotView, bytes: Seq<u8>, port: u32, now: u64) -> (
    Verdict,
    Seq<u8>,
    SlotView,
) {
    if slot.state == SlotState::Swapping {
        (Verdict::Abort, bytes, slot)
    } else {
        let step = run_step(slot.program, bytes, port, slot.stores, now);
        (step.0, step.1, SlotView { stores: step.2, ..slot })
    }
}

/// What beginning a replacement does to a slot.
pub open spec fn swap_begun(slot: SlotView) -> (Result<(), SwapError>, SlotView) {
    if slot.state == SlotState::Swapping {
        (Err(SwapError::AlreadySwapping), slot)
    } else {
        (Ok(()), SlotView { state: SlotState::Swapping, ..slot })
    }
}

/// What ending a replacement does to a slot. The second version of the
/// packet counter takes over the first one's count before it is put in
/// place; where that fails the program from before stays and the slot is
/// faulted. Every other program is put in place as it is.
pub open spec fn swap_completed(slot: SlotView, program: Program) -> (
    Result<(), SwapError>,
    SlotView,
) {
    if slot.state != SlotState::Swapping {
        (Err(SwapError::NotSwapping), slot)
    } else if program == Program::StateMigrationV2 {
        let step = state_migration::migration_step(
            slot.stores.version,
            slot.stores.packet_ctr_v1,
            slot.stores.packet_ctr_v2,
        );
        match step.0 {
            Ok(_) => (
                Ok(()),
                SlotView {
                    program,
                    state: SlotState::Active,
                    stores: StoresView { version: step.1, packet_ctr_v2: step.2, ..slot.stores },
                    ..slot
                },
            ),
            Err(e) => (Err(SwapError::Migration(e)), SlotView { state: SlotState::Faulted, ..slot }),
        }
    } else {
        (Ok(()), SlotView { program, state: SlotState::Active, ..slot })
    }
}

/// What replacing a slot's program in one go does to the slot.
pub open spec fn swapped(slot: SlotView, program: Program) -> (Result<(), SwapError>, SlotView) {
    let begun = swap_begun(slot);
    if begun.0.is_err() {
        begun
    } else {
        swap_completed(begun.1, program)
    }
}

impl Slot {
    /// A slot that holds `program`, ready for packets.
    pub fn new(id: u64, program: Program, stores: Stores) -> (slot: Slot)
        ensures
            slot@ == (SlotView { id, program, state: SlotState::Active, stores: stores@ }),
            slot.stores.wf() == stores.wf(),
    {
        Slot { id, program, state: SlotState::Active, stores }
    }

    /// Hands a packet to the slot, as `dispatched` says.
    pub fn dispatch(&mut self, ctx: &mut BpfContext, now: u64) -> (v: Verdict)
        requires
            old(self).stores.wf(),
        ensures
            final(self).stores.wf(),
            final(ctx).port == old(ctx).port,
            (v, final(ctx).bytes(), final(self)@) == dispatched(
                old(self)@,
                old(ctx).bytes(),
                old(ctx).port,
                now,
            ),
    {
        match self.state {
            SlotState::Swapping => Verdict::Abort,
            _ => run_program(self.program, ctx, &mut self.stores, now),
        }
    }

    /// Begins the replacement of the slot's program, as `swap_begun` says.
    pub fn begin_swap(&mut self) -> (r: Result<(), SwapError>)
        ensures
            final(self).stores.wf() == old(self).stores.wf(),
            (r, final(self)@) == swap_begun(old(self)@),
    {
        match self.state {
            SlotState::Swapping => Err(SwapError::AlreadySwapping),
            _ => {
                self.state = SlotState::Swapping;
                Ok(())
            },
        }
    }

    /// Ends the replacement of the slot's program, as `swap_completed` says.
    pub fn complete_swap(&mut self, program: Program) -> (r: Result<(), SwapError>)
        requires
            old(self).stores.wf(),
        ensures
            final(self).stores.wf(),
            (r, final(self)@) == swap_completed(old(self)@, program),
    {
        match self.state {
            SlotState::Swapping => {},
            _ => {
                return Err(SwapError::NotSwapping);
            },
        }
        match program {
            Program::StateMigrationV2 => {
                let old_counter = self.stores.packet_ctr_v1.as_ref();
                match state_migration::handle_migration(
                    &mut self.stores.version,
                    old_counter,
                    &mut self.stores.packet_ctr_v2,
                ) {
                    Ok(_) => {
                        self.program = program;
                        self.state = SlotState::Active;
                        Ok(())
                    },
                    Err(e) => {
                        self.state = SlotState::Faulted;
                        Err(SwapError::Migration(e))
                    },
                }
            },
            _ => {
                self.program = program;
                self.state = SlotState::Active;
                Ok(())
            },
        }
    }

    /// Replaces the slot's program in one go, as `swapped` says.
    pub fn swap(&mut self, program: Program) -> (r: Result<(), SwapError>)
        requires
            old(self).stores.wf(),
        ensures
            final(self).stores.wf(),
            (r, final(self)@) == swapped(old(self)@, program),
    {
        match self.begin_swap() {
            Ok(_) => self.complete_swap(program),
            Err(e) => Err(e),
        }
    }
}

/// The place of the slot of number `id` among `slots`, if there is one.
pub open spec fn position(slots: Seq<SlotView>, id: u64) -> Option<int> {
    if exists|i: int| 0 <= i < slots.len() && slots[i].id == id {
        Some(choose|i: int| 0 <= i < slots.len() && slots[i].id == id)
    } else {
        None
    }
}

/// What a control datagram does to the slots: it replaces the program of the
/// slot it names by the program it names. A datagram that is no control
/// message, or names no program or no slot, changes nothing.
pub open spec fn control_step(slots: Seq<SlotView>, datagram: Seq<u8>) -> (
    Result<(), ControlError>,
    Seq<SlotView>,
) {
    match parsed(datagram) {
        Err(e) => (Err(ControlError::Parse(e)), slots),
        Ok(message) => match Program::spec_from_name(message.1) {
            None => (Err(ControlError::UnknownProgram), slots),
            Some(program) => match position(slots, message.0) {
                None => (Err(ControlError::Swap(SwapError::UnknownSlot)), slots),
                Some(i) => {
                    let step = swapped(slots[i], program);
                    (
                        match step.0 {
                            Ok(_) => Ok(()),
                            Err(e) => Err(ControlError::Swap(e)),
                        },
                        slots.update(i, step.1),
                    )
                },
            },
        },
    }
}

/// A slot never shows a packet a mixture of two programs. Whatever program
/// is asked for, and whether taking over state succeeds or fails, the next
/// packet is judged by one program from start to end: the new one where the
/// replacement succeeded, the one from before where it failed; and while a
/// replacement is under way no program sees a packet at all.
pub proof fn lemma_swap_is_atomic(
    slot: SlotView,
    program: Program,
    bytes: Seq<u8>,
    port: u32,
    now: u64,
)
    ensures
        swap_begun(slot).0.is_ok() ==> dispatched(swap_begun(slot).1, bytes, port, now) == (
            Verdict::Abort,
            bytes,
            swap_begun(slot).1,
        ),
        swapped(slot, program).0.is_ok() ==> {
            let after = swapped(slot, program).1;
            let step = dispatched(after, bytes, port, now);
            &&& after.program == program
            &&& after.state == SlotState::Active
            &&& (step.0, step.1, step.2.stores) == run_step(program, bytes, port, after.stores, now)
        },
        swapped(slot, program).0.is_err() && slot.state != SlotState::Swapping ==> {
            let after = swapped(slot, program).1;
            let step = dispatched(after, bytes, port, now);
            &&& after.program == slot.program
            &&& after.state == SlotState::Faulted
            &&& after.stores == slot.stores
            &&& (step.0, step.1, step.2.stores) == run_step(
                slot.program,
                bytes,
                port,
                slot.stores,
                now,
            )
        },
        dispatched(slot, bytes, port, now).2.program == slot.program,
        dispatched(slot, bytes, port, now).2.state == slot.state,
        dispatched(slot, bytes, port, now).2.id == slot.id,
{
}

/// The slots of the router. It hands each packet to the program of the
/// packet's slot and replaces programs between packets.
#[derive(Debug)]
pub struct ReconfigurationController {
    slots: Vec<Slot>,
}

impl View for ReconfigurationController {
    type V = Seq<SlotView>;

    closed spec fn view(&self) -> Seq<SlotView> {
        Seq::new(self.slots@.len(), |i: int| self.slots@[i]@)
    }
}

impl ReconfigurationController {
    /// No two slots have the same number, and the stores of each are well
    /// formed.
    pub closed spec fn wf(&self) -> bool {
        &&& forall|i: int| 0 <= i < self.slots@.len() ==> (#[trigger] self.slots@[i]).stores.wf()
        &&& forall|i: int, j: int|
            0 <= i < self.slots@.len() && 0 <= j < self.slots@.len() && i != j ==> (
            #[trigger] self.slots@[i]).id != (#[trigger] self.slots@[j]).id
    }

    /// No two slots have the same number.
    pub proof fn lemma_ids_differ(&self, i: int, j: int)
        requires
            self.wf(),
            0 <= i < self@.len(),
            0 <= j < self@.len(),
            self@[i].id == self@[j].id,
        ensures
            i == j,
    {
    }

    /// A router without slots.
    pub fn new() -> (c: ReconfigurationController)
        ensures
            c.wf(),
            c@ == Seq::<SlotView>::empty(),
    {
        let c = ReconfigurationController { slots: Vec::new() };
        assert(c@ =~= Seq::<SlotView>::empty());
        c
    }

    /// The place of the slot of number `id`.
    fn index_of(&self, id: u64) -> (r: Option<usize>)
        requires
            self.wf(),
        ensures
            match r {
                Some(i) => i < self.slots@.len() && position(self@, id) == Some(i as int),
                None => position(self@, id).is_none(),
            },
    {
        let mut i: usize = 0;
        while i < self.slots.len()
            invariant
                self.wf(),
                i <= self.slots@.len(),
                forall|k: int| 0 <= k < i ==> self@[k].id != id,
            decreases self.slots@.len() - i,
        {
            if self.slots[i].id == id {
                proof {
                    assert(self@[i as int].id == id);
                    let chosen = choose|k: int| 0 <= k < self@.len() && self@[k].id == id;
                    self.lemma_ids_differ(chosen, i as int);
                }
                return Some(i);
            }
            i += 1;
        }
        None
    }

    /// Adds a slot of number `id` that holds `program` and keeps its state
    /// in `stores`. A number that is taken adds nothing.
    pub fn add_slot_with(&mut self, id: u64, program: Program, stores: Stores) -> (r: Result<
        (),
        DuplicateSlot,
    >)
        requires
            old(self).wf(),
            stores.wf(),
        ensures
            final(self).wf(),
            match r {
                Ok(_) => position(old(self)@, id).is_none() && final(self)@ == old(self)@.push(
                    SlotView { id, program, state: SlotState::Active, stores: stores@ },
                ),
                Err(_) => position(old(self)@, id).is_some() && final(self)@ == old(self)@,
            },
    {
        if self.index_of(id).is_some() {
            return Err(DuplicateSlot);
        }
        let slot = Slot::new(id, program, stores);
        self.slots.push(slot);
        proof {
            assert(final(self)@ =~= old(self)@.push(
                SlotView { id, program, state: SlotState::Active, stores: stores@ },
            ));
            assert forall|i: int, j: int|
                0 <= i < self.slots@.len() && 0 <= j < self.slots@.len() && i != j implies (
            #[trigger] self.slots@[i]).id != (#[trigger] self.slots@[j]).id by {
                if i < old(self).slots@.len() {
                    assert(old(self)@[i].id == self.slots@[i].id);
                }
                if j < old(self).slots@.len() {
                    assert(old(self)@[j].id == self.slots@[j].id);
                }
            }
        }
        Ok(())
    }

    /// Adds a slot of number `id` that holds `program`, with fresh stores.
    pub fn add_slot(&mut self, id: u64, program: Program) -> (r: Result<(), DuplicateSlot>)
        requires
            old(self).wf(),
        ensures
            final(self).wf(),
            match r {
                Ok(_) => position(old(self)@, id).is_none() && final(self)@.len() == old(self)@.len()
                    + 1 && final(self)@.subrange(0, old(self)@.len() as int) == old(self)@
                    && final(self)@.last().id == id && final(self)@.last().program == program
                    && final(self)@.last().state == SlotState::Active,
                Err(_) => position(old(self)@, id).is_some() && final(self)@ == old(self)@,
            },
    {
        let r = self.add_slot_with(id, program, Stores::new());
        proof {
            if r.is_ok() {
                assert(final(self)@.subrange(0, old(self)@.len() as int) =~= old(self)@);
            }
        }
        r
    }

    /// Number of slots.
    pub fn slot_count(&self) -> (n: usize)
        ensures
            n == self@.len(),
    {
        self.slots.len()
    }

    /// The slot of number `id`, to look at.
    pub fn slot(&self, id: u64) -> (r: Option<&Slot>)
        requires
            self.wf(),
        ensures
            match r {
                Some(slot) => position(self@, id).is_some() && slot@ == self@[position(
                    self@,
                    id,
                ).unwrap()] && slot.stores.wf(),
                None => position(self@, id).is_none(),
            },
    {
        match self.index_of(id) {
            Some(i) => Some(&self.slots[i]),
            None => None,
        }
    }

    /// Hands a packet to the slot of number `slot_id`, as `dispatched` says
    /// of that slot. No other slot changes. Without such a slot the packet
    /// is aborted and nothing changes.
    pub fn dispatch(&mut self, slot_id: u64, ctx: &mut BpfContext, now: u64) -> (v: Verdict)
        requires
            old(self).wf(),
        ensures
            final(self).wf(),
            final(ctx).port == old(ctx).port,
            match position(old(self)@, slot_id) {
                Some(i) => (v, final(ctx).bytes(), final(self)@) == ({
                    let step = dispatched(old(self)@[i], old(ctx).bytes(), old(ctx).port, now);
                    (step.0, step.1, old(self)@.update(i, step.2))
                }),
                None => v == Verdict::Abort && final(ctx).bytes() == old(ctx).bytes() && final(self)@ == old(self)@,
            },
    {
        let i = match self.index_of(slot_id) {
            Some(i) => i,
            None => {
                return Verdict::Abort;
            },
        };
        let v = self.slots[i].dispatch(ctx, now);
        proof {
            assert(final(self)@ =~= old(self)@.update(i as int, self.slots@[i as int]@));
            assert forall|a: int, b: int|
                0 <= a < self.slots@.len() && 0 <= b < self.slots@.len() && a != b implies (
            #[trigger] self.slots@[a]).id != (#[trigger] self.slots@[b]).id by {
                assert(old(self).slots@[a].id == self.slots@[a].id);
                assert(old(self).slots@[b].id == self.slots@[b].id);
            }
        }
        v
    }

    /// Replaces the program of the slot of number `slot_id`, as `swapped`
    /// says of that slot. No other slot changes. Without such a slot nothing
    /// changes.
    pub fn swap(&mut self, slot_id: u64, program: Program) -> (r: Result<(), SwapError>)
        requires
            old(self).wf(),
        ensures
            final(self).wf(),
            match position(old(self)@, slot_id) {
                Some(i) => (r, final(self)@) == ({
                    let step = swapped(old(self)@[i], program);
                    (step.0, old(self)@.update(i, step.1))
                }),
                None => r == Err::<(), SwapError>(SwapError::UnknownSlot) && final(self)@ == old(self)@,
            },
    {
        let i = match self.index_of(slot_id) {
            Some(i) => i,
            None => {
                return Err(SwapError::UnknownSlot);
            },
        };
        let r = self.slots[i].swap(program);
        proof {
            assert(final(self)@ =~= old(self)@.update(i as int, self.slots@[i as int]@));
            assert forall|a: int, b: int|
                0 <= a < self.slots@.len() && 0 <= b < self.slots@.len() && a != b implies (
            #[trigger] self.slots@[a]).id != (#[trigger] self.slots@[b]).id by {
                assert(old(self).slots@[a].id == self.slots@[a].id);
                assert(old(self).slots@[b].id == self.slots@[b].id);
            }
        }
        r
    }

    /// Begins the replacement of the program of the slot of number
    /// `slot_id`: from now until the replacement ends, no packet is handed to
    /// the slot's program.
    pub fn begin_swap(&mut self, slot_id: u64) -> (r: Result<(), SwapError>)
        requires
            old(self).wf(),
        ensures
            final(self).wf(),
            match position(old(self)@, slot_id) {
                Some(i) => (r, final(self)@) == ({
                    let step = swap_begun(old(self)@[i]);
                    (step.0, old(self)@.update(i, step.1))
                }),
                None => r == Err::<(), SwapError>(SwapError::UnknownSlot) && final(self)@ == old(self)@,
            },
    {
        let i = match self.index_of(slot_id) {
            Some(i) => i,
            None => {
                return Err(SwapError::UnknownSlot);
            },
        };
        let r = self.slots[i].begin_swap();
        proof {
            assert(final(self)@ =~= old(self)@.update(i as int, self.slots@[i as int]@));
            assert forall|a: int, b: int|
                0 <= a < self.slots@.len() && 0 <= b < self.slots@.len() && a != b implies (
            #[trigger] self.slots@[a]).id != (#[trigger] self.slots@[b]).id by {
                assert(old(self).slots@[a].id == self.slots@[a].id);
                assert(old(self).slots@[b].id == self.slots@[b].id);
            }
        }
        r
    }

    /// Ends the replacement of the program of the slot of number `slot_id`,
    /// as `swap_completed` says of that slot.
    pub fn complete_swap(&mut self, slot_id: u64, program: Program) -> (r: Result<(), SwapError>)
        requires
            old(self).wf(),
        ensures
            final(self).wf(),
            match position(old(self)@, slot_id) {
                Some(i) => (r, final(self)@) == ({
                    let step = swap_completed(old(self)@[i], program);
                    (step.0, old(self)@.update(i, step.1))
                }),
                None => r == Err::<(), SwapError>(SwapError::UnknownSlot) && final(self)@ == old(self)@,
            },
    {
        let i = match self.index_of(slot_id) {
            Some(i) => i,
            None => {
                return Err(SwapError::UnknownSlot);
            },
        };
        let r = self.slots[i].complete_swap(program);
        proof {
            assert(final(self)@ =~= old(self)@.update(i as int, self.slots@[i as int]@));
            assert forall|a: int, b: int|
                0 <= a < self.slots@.len() && 0 <= b < self.slots@.len() && a != b implies (
            #[trigger] self.slots@[a]).id != (#[trigger] self.slots@[b]).id by {
                assert(old(self).slots@[a].id == self.slots@[a].id);
                assert(old(self).slots@[b].id == self.slots@[b].id);
            }
        }
        r
    }

    /// Applies a control datagram, as `control_step` says.
    pub fn handle_control(&mut self, datagram: &[u8]) -> (r: Result<(), ControlError>)
        requires
            old(self).wf(),
        ensures
            final(self).wf(),
            (r, final(self)@) == control_step(old(self)@, datagram@),
    {
        let message = match ControlMessage::parse(datagram) {
            Ok(message) => message,
            Err(e) => {
                return Err(ControlError::Parse(e));
            },
        };
        let program = match Program::from_name(message.program_name.as_slice()) {
            Some(program) => program,
            None => {
                return Err(ControlError::UnknownProgram);
            },
        };
        match self.swap(message.slot_id, program) {
            Ok(_) => Ok(()),
            Err(e) => Err(ControlError::Swap(e)),
        }
    }
}

} // verus!
