use bpf_element::control::{ControlMessage, ControlParseError};
use bpf_element::controller::{
    ControlError, DuplicateSlot, ReconfigurationController, Slot, SlotState, Stores, SwapError,
    Verdict,
};
use bpf_element::packet::BpfContext;
use bpf_element::programs::catalog::{same_bytes, Program, Role};
use bpf_element::programs::state_migration::MigrationError;
use bpf_element::store::FixedArray;
use bpf_element::verdict::{FilterResult, RewriterResult};

fn message(slot_id: u64, program: &str, signature: &str) -> ControlMessage {
    ControlMessage {
        slot_id,
        program_name: program.as_bytes().to_vec(),
        signature_name: signature.as_bytes().to_vec(),
    }
}

#[test]
fn control_message_layout() {
    let datagram = message(1, "drop", "sig").encode();
    let mut expected = b"control".to_vec();
    expected.extend_from_slice(&1u64.to_le_bytes());
    expected.extend_from_slice(&4u64.to_le_bytes());
    expected.extend_from_slice(b"drop");
    expected.extend_from_slice(&3u64.to_le_bytes());
    expected.extend_from_slice(b"sig");
    assert_eq!(datagram, expected);
    assert_eq!(datagram.len(), 7 + 8 + 8 + 4 + 8 + 3);
}

#[test]
fn control_message_round_trip() {
    let datagram = message(0x0102030405060708, "rate-limiter", "").encode();
    let back = ControlMessage::parse(&datagram).unwrap();
    assert_eq!(back.slot_id, 0x0102030405060708);
    assert_eq!(back.program_name, b"rate-limiter".to_vec());
    assert_eq!(back.signature_name, Vec::<u8>::new());
    let big = message(u64::MAX, "", "x").encode();
    let back = ControlMessage::parse(&big).unwrap();
    assert_eq!(back.slot_id, u64::MAX);
    assert_eq!(back.program_name, Vec::<u8>::new());
    assert_eq!(back.signature_name, b"x".to_vec());
}

#[test]
fn malformed_control_messages() {
    let good = message(1, "drop", "sig").encode();
    for cut in 0..good.len() {
        assert_eq!(
            ControlMessage::parse(&good[..cut]).err(),
            Some(ControlParseError::Truncated),
        );
    }
    let mut trailing = good.clone();
    trailing.push(0);
    assert_eq!(ControlMessage::parse(&trailing).err(), Some(ControlParseError::Trailing));
    let mut bad = good.clone();
    bad[0] = b'k';
    assert_eq!(ControlMessage::parse(&bad).err(), Some(ControlParseError::BadTag));
    let mut huge = b"control".to_vec();
    huge.extend_from_slice(&1u64.to_le_bytes());
    huge.extend_from_slice(&u64::MAX.to_le_bytes());
    huge.extend_from_slice(&[0u8; 20]);
    assert_eq!(ControlMessage::parse(&huge).err(), Some(ControlParseError::Truncated));
    let mut old_format = b"control".to_vec();
    old_format.extend_from_slice(&1u64.to_le_bytes());
    old_format.extend_from_slice(&4u64.to_le_bytes());
    old_format.extend_from_slice(b"drop");
    assert_eq!(ControlMessage::parse(&old_format).err(), Some(ControlParseError::Truncated));
}

#[test]
fn programs_by_name() {
    assert_eq!(Program::from_name(b"pass"), Some(Program::Pass));
    assert_eq!(Program::from_name(b"drop"), Some(Program::Drop));
    assert_eq!(Program::from_name(b"nat"), Some(Program::Nat));
    assert_eq!(Program::from_name(b"state-migration-v1"), Some(Program::StateMigrationV1));
    assert_eq!(Program::from_name(b"state-migration-v2"), Some(Program::StateMigrationV2));
    assert_eq!(Program::from_name(b"strip-ether-vlan-header"), Some(Program::StripEtherVlanHeader));
    assert_eq!(Program::from_name(b"Pass"), None);
    assert_eq!(Program::from_name(b""), None);
    assert_eq!(Program::from_name(b"pass "), None);
    assert_eq!(Program::RateLimiter.name(), b"rate-limiter".to_vec());
    assert_eq!(Program::UdpTcpClassifier.name(), b"udp-tcp-classifier".to_vec());
    assert_eq!(Program::Pass.role(), Role::Filter);
    assert_eq!(Program::RoundRobin.role(), Role::Classifier);
    assert_eq!(Program::EtherMirror.role(), Role::Rewriter);
    assert!(same_bytes(b"abc", b"abc"));
    assert!(!same_bytes(b"abc", b"abd"));
    assert!(!same_bytes(b"abc", b"ab"));
}

#[test]
fn dispatch_runs_the_slot_program() {
    let mut router = ReconfigurationController::new();
    assert_eq!(router.add_slot(1, Program::Pass), Ok(()));
    assert_eq!(router.add_slot(2, Program::Drop), Ok(()));
    assert_eq!(router.add_slot(2, Program::Pass), Err(DuplicateSlot));
    assert_eq!(router.slot_count(), 2);
    let mut ctx = BpfContext::new(vec![1, 2, 3], 0);
    assert_eq!(router.dispatch(1, &mut ctx, 0), Verdict::Filter(FilterResult::Pass));
    assert_eq!(router.dispatch(2, &mut ctx, 0), Verdict::Filter(FilterResult::Drop));
    assert_eq!(router.dispatch(3, &mut ctx, 0), Verdict::Abort);
    assert_eq!(ctx.data, vec![1, 2, 3]);
    assert!(Verdict::Filter(FilterResult::Pass).forwards());
    assert!(!Verdict::Filter(FilterResult::Drop).forwards());
    assert!(!Verdict::Filter(FilterResult::Abort).forwards());
    assert!(!Verdict::Abort.forwards());
    assert!(Verdict::Classifier(1).forwards());
    assert!(!Verdict::Rewriter(RewriterResult::Abort).forwards());
    assert_eq!(Verdict::Filter(FilterResult::Drop).code(), Some(2));
    assert_eq!(Verdict::Classifier(7).code(), Some(7));
    assert_eq!(Verdict::Rewriter(RewriterResult::Success).code(), Some(1));
    assert_eq!(Verdict::Abort.code(), None);
}

#[test]
fn swap_by_control_message() {
    let mut router = ReconfigurationController::new();
    assert_eq!(router.add_slot(1, Program::Pass), Ok(()));
    let mut ctx = BpfContext::new(vec![0u8; 4], 0);
    assert_eq!(router.dispatch(1, &mut ctx, 0), Verdict::Filter(FilterResult::Pass));
    assert_eq!(router.handle_control(&message(1, "drop", "drop.sig").encode()), Ok(()));
    assert_eq!(router.slot(1).map(|s| s.program), Some(Program::Drop));
    assert_eq!(router.slot(1).map(|s| s.state), Some(SlotState::Active));
    assert_eq!(router.dispatch(1, &mut ctx, 0), Verdict::Filter(FilterResult::Drop));
}

#[test]
fn refused_control_messages_change_nothing() {
    let mut router = ReconfigurationController::new();
    assert_eq!(router.add_slot(1, Program::Pass), Ok(()));
    let good = message(1, "drop", "").encode();
    assert_eq!(
        router.handle_control(&good[..good.len() - 1]),
        Err(ControlError::Parse(ControlParseError::Truncated))
    );
    assert_eq!(
        router.handle_control(b"nonsense"),
        Err(ControlError::Parse(ControlParseError::BadTag))
    );
    assert_eq!(
        router.handle_control(&message(1, "no-such-program", "").encode()),
        Err(ControlError::UnknownProgram)
    );
    assert_eq!(
        router.handle_control(&message(9, "drop", "").encode()),
        Err(ControlError::Swap(SwapError::UnknownSlot))
    );
    assert_eq!(router.slot(1).map(|s| s.program), Some(Program::Pass));
    assert_eq!(router.slot(1).map(|s| s.state), Some(SlotState::Active));
    assert!(router.slot(9).is_none());
}

#[test]
fn no_packet_runs_while_a_swap_is_under_way() {
    let mut router = ReconfigurationController::new();
    assert_eq!(router.add_slot(1, Program::RoundRobin), Ok(()));
    let mut ctx = BpfContext::new(vec![0u8; 4], 0);
    assert_eq!(router.dispatch(1, &mut ctx, 0), Verdict::Classifier(0));
    assert_eq!(router.complete_swap(1, Program::Drop), Err(SwapError::NotSwapping));
    assert_eq!(router.begin_swap(1), Ok(()));
    assert_eq!(router.begin_swap(1), Err(SwapError::AlreadySwapping));
    assert_eq!(router.swap(1, Program::Drop), Err(SwapError::AlreadySwapping));
    assert_eq!(router.slot(1).map(|s| s.state), Some(SlotState::Swapping));
    assert_eq!(router.dispatch(1, &mut ctx, 0), Verdict::Abort);
    assert_eq!(router.slot(1).map(|s| s.stores.pkt_counter.get(0).copied()), Some(Some(1)));
    assert_eq!(router.complete_swap(1, Program::Pass), Ok(()));
    assert_eq!(router.dispatch(1, &mut ctx, 0), Verdict::Filter(FilterResult::Pass));
    assert_eq!(router.begin_swap(7), Err(SwapError::UnknownSlot));
    assert_eq!(router.complete_swap(7, Program::Pass), Err(SwapError::UnknownSlot));
    assert_eq!(router.swap(7, Program::Pass), Err(SwapError::UnknownSlot));
}

#[test]
fn state_outlives_a_swap_and_is_taken_over() {
    let mut router = ReconfigurationController::new();
    assert_eq!(router.add_slot(1, Program::StateMigrationV1), Ok(()));
    let mut ctx = BpfContext::new(vec![0u8; 4], 0);
    for _ in 0..7 {
        assert_eq!(router.dispatch(1, &mut ctx, 0), Verdict::Filter(FilterResult::Pass));
    }
    assert_eq!(router.swap(1, Program::StateMigrationV2), Ok(()));
    let stores = &router.slot(1).unwrap().stores;
    assert_eq!(stores.packet_ctr_v2.get(0), Some(&7));
    assert_eq!(stores.version.get(0), Some(&2));
    assert_eq!(router.dispatch(1, &mut ctx, 0), Verdict::Filter(FilterResult::Pass));
    assert_eq!(router.dispatch(1, &mut ctx, 0), Verdict::Filter(FilterResult::Pass));
    assert_eq!(router.dispatch(1, &mut ctx, 0), Verdict::Filter(FilterResult::Pass));
    assert_eq!(router.dispatch(1, &mut ctx, 0), Verdict::Filter(FilterResult::Drop));
    assert_eq!(router.slot(1).unwrap().stores.packet_ctr_v2.get(0), Some(&11));
}

#[test]
fn failed_take_over_keeps_the_program_from_before() {
    let mut stores = Stores::new();
    stores.packet_ctr_v1 = None;
    let mut router = ReconfigurationController::new();
    assert_eq!(router.add_slot_with(4, Program::Pass, stores), Ok(()));
    assert_eq!(
        router.swap(4, Program::StateMigrationV2),
        Err(SwapError::Migration(MigrationError::MissingOldStore))
    );
    assert_eq!(router.slot(4).map(|s| s.program), Some(Program::Pass));
    assert_eq!(router.slot(4).map(|s| s.state), Some(SlotState::Faulted));
    let mut ctx = BpfContext::new(vec![0u8; 4], 0);
    assert_eq!(router.dispatch(4, &mut ctx, 0), Verdict::Filter(FilterResult::Pass));
    assert_eq!(router.swap(4, Program::Drop), Ok(()));
    assert_eq!(router.slot(4).map(|s| s.state), Some(SlotState::Active));
    assert_eq!(router.dispatch(4, &mut ctx, 0), Verdict::Filter(FilterResult::Drop));
}

#[test]
fn slot_on_its_own() {
    let mut stores = Stores::new();
    stores.version = FixedArray::new(0, 0);
    let mut slot = Slot::new(3, Program::EtherMirror, stores);
    let mut ctx = BpfContext::new((0u8..14).collect(), 5);
    assert_eq!(slot.dispatch(&mut ctx, 0), Verdict::Rewriter(RewriterResult::Success));
    assert_eq!(ctx.data, vec![6, 7, 8, 9, 10, 11, 0, 1, 2, 3, 4, 5, 12, 13]);
    assert_eq!(ctx.port, 5);
    assert_eq!(
        slot.swap(Program::StateMigrationV2),
        Err(SwapError::Migration(MigrationError::MissingVersion))
    );
    assert_eq!(slot.state, SlotState::Faulted);
    assert_eq!(slot.program, Program::EtherMirror);
    assert_eq!(slot.swap(Program::StripEtherVlanHeader), Ok(()));
    assert_eq!(slot.dispatch(&mut ctx, 0), Verdict::Rewriter(RewriterResult::Success));
    assert_eq!(ctx.data, Vec::<u8>::new());
    assert_eq!(slot.dispatch(&mut ctx, 0), Verdict::Rewriter(RewriterResult::Abort));
    assert_eq!(slot.id, 3);
}

#[test]
fn every_program_runs_in_a_slot() {
    let mut router = ReconfigurationController::new();
    assert_eq!(router.add_slot(1, Program::Pass), Ok(()));
    let mut frame = vec![1u8, 2, 3, 4, 5, 6, 11, 12, 13, 14, 15, 16, 8, 0];
    frame.extend_from_slice(&[0x45, 0, 0, 40, 0, 0, 0, 0, 64, 6, 0, 0, 10, 0, 0, 1, 10, 0, 0, 2]);
    frame.extend_from_slice(&[0x10, 0x00, 0x30, 0x39]);
    frame.extend_from_slice(&[0u8; 16]);
    let run = |router: &mut ReconfigurationController, name: &str, data: &[u8]| {
        router.handle_control(&message(1, name, "").encode()).unwrap();
        let mut ctx = BpfContext::new(data.to_vec(), 0);
        router.dispatch(1, &mut ctx, 0)
    };
    assert_eq!(run(&mut router, "target-port", &frame), Verdict::Filter(FilterResult::Drop));
    assert_eq!(run(&mut router, "rate-limiter", &frame), Verdict::Filter(FilterResult::Pass));
    assert_eq!(run(&mut router, "rate-limiter", &frame), Verdict::Filter(FilterResult::Drop));
    assert_eq!(run(&mut router, "stringmatcher", &frame), Verdict::Filter(FilterResult::Pass));
    assert_eq!(run(&mut router, "firewall", &frame), Verdict::Filter(FilterResult::Drop));
    assert_eq!(run(&mut router, "udp-tcp-classifier", &frame), Verdict::Classifier(1));
    assert_eq!(run(&mut router, "round-robin", &frame), Verdict::Classifier(0));
    assert_eq!(run(&mut router, "round-robin", &frame), Verdict::Classifier(1));
    assert_eq!(run(&mut router, "nat", &frame[14..]), Verdict::Classifier(0));
    assert_eq!(run(&mut router, "nat", &frame[..20]), Verdict::Abort);
    assert_eq!(run(&mut router, "state-migration-v1", &frame), Verdict::Filter(FilterResult::Pass));
    assert_eq!(run(&mut router, "state-migration-v2", &frame), Verdict::Filter(FilterResult::Pass));
    assert_eq!(run(&mut router, "ether-mirror", &frame), Verdict::Rewriter(RewriterResult::Success));
    assert_eq!(
        run(&mut router, "strip-ether-vlan-header", &frame),
        Verdict::Rewriter(RewriterResult::Success)
    );
    assert_eq!(run(&mut router, "drop", &frame), Verdict::Filter(FilterResult::Drop));
    assert_eq!(run(&mut router, "pass", &frame), Verdict::Filter(FilterResult::Pass));
    let stores = &router.slot(1).unwrap().stores;
    assert_eq!(stores.connections.len(), 2);
    assert_eq!(stores.rate_limits.len(), 1);
    assert_eq!(stores.packet_ctr_v2.get(0), Some(&2));
}

#[test]
fn fresh_stores() {
    let stores = Stores::new();
    assert_eq!(stores.rate_limits.capacity(), 1024);
    assert_eq!(stores.rate_limits.len(), 0);
    assert_eq!(stores.connections.capacity(), 1028);
    assert_eq!(stores.connections.len(), 0);
    assert_eq!(stores.next_port.get(0), Some(&0));
    assert_eq!(stores.next_port.capacity(), 1);
    assert_eq!(stores.pkt_counter.get(0), Some(&0));
    assert_eq!(stores.packet_ctr_v1.as_ref().and_then(|c| c.get(0)), Some(&0));
    assert_eq!(stores.packet_ctr_v2.get(0), Some(&0));
    assert_eq!(stores.version.get(0), Some(&0));
}
