use bpf_element::packet::{BPFilterContext, BpfContext, ClassifierContext, RewriterContext};
use bpf_element::programs::basic;
use bpf_element::programs::dns_filter::{self, DnsScan, Question};
use bpf_element::programs::ether_mirror;
use bpf_element::programs::firewall;
use bpf_element::programs::flow_nat::{
    apply_rewrite, next_port, parse_connection, try_classify, Connection, NatError, Rewrite,
    Transport, DEV_EX_IP,
};
use bpf_element::programs::rate_limiter::{self, RateLimit, RateLimitError};
use bpf_element::programs::round_robin::{self, RoundRobinError};
use bpf_element::programs::state_migration::{handle_migration, main_v1, main_v2, MigrationError};
use bpf_element::programs::stringmatcher;
use bpf_element::programs::strip_ether_vlan_header::{self, StripError};
use bpf_element::programs::target_port::{self, TargetPortError};
use bpf_element::programs::udp_tcp_classifier;
use bpf_element::store::{BoundedMap, FixedArray};
use bpf_element::verdict::{ClassifyResult, FilterResult, RewriterResult};

fn ipv4(proto: u8, src: [u8; 4], dst: [u8; 4]) -> Vec<u8> {
    let mut h = vec![0x45, 0, 0, 40, 0, 0, 0, 0, 64, proto, 0, 0];
    h.extend_from_slice(&src);
    h.extend_from_slice(&dst);
    h
}

fn tcp(sport: u16, dport: u16) -> Vec<u8> {
    let mut h = Vec::new();
    h.extend_from_slice(&sport.to_be_bytes());
    h.extend_from_slice(&dport.to_be_bytes());
    h.extend_from_slice(&[0u8; 16]);
    h
}

fn udp(sport: u16, dport: u16) -> Vec<u8> {
    let mut h = Vec::new();
    h.extend_from_slice(&sport.to_be_bytes());
    h.extend_from_slice(&dport.to_be_bytes());
    h.extend_from_slice(&[0, 8, 0, 0]);
    h
}

fn eth(ether_type: u16) -> Vec<u8> {
    let mut h = vec![1, 2, 3, 4, 5, 6, 11, 12, 13, 14, 15, 16];
    h.extend_from_slice(&ether_type.to_be_bytes());
    h
}

fn join(parts: &[Vec<u8>]) -> Vec<u8> {
    parts.iter().flat_map(|p| p.iter().copied()).collect()
}

#[test]
fn pass_and_drop() {
    assert_eq!(basic::filter(), FilterResult::Pass);
    assert_eq!(basic::drop_all(), FilterResult::Drop);
}

#[test]
fn target_port_drops_the_blocked_port_only() {
    let blocked = join(&[eth(0x0800), ipv4(6, [10, 0, 0, 1], [10, 0, 0, 2]), tcp(4000, 12345)]);
    assert_eq!(target_port::try_filter(&BpfContext::new(blocked.clone(), 0)), Ok(FilterResult::Drop));
    assert_eq!(target_port::main(&BpfContext::new(blocked.clone(), 0)), FilterResult::Drop);
    let ctx = BPFilterContext { packet: BpfContext::new(blocked, 0) };
    assert_eq!(target_port::filter(&ctx), 1);
    let other = join(&[eth(0x0800), ipv4(17, [10, 0, 0, 1], [10, 0, 0, 2]), udp(12345, 53)]);
    assert_eq!(target_port::try_filter(&BpfContext::new(other, 0)), Ok(FilterResult::Pass));
    let udp_blocked = join(&[eth(0x0800), ipv4(17, [10, 0, 0, 1], [10, 0, 0, 2]), udp(1, 12345)]);
    assert_eq!(target_port::try_filter(&BpfContext::new(udp_blocked, 0)), Ok(FilterResult::Drop));
}

#[test]
fn target_port_edges() {
    let arp = join(&[eth(0x0806), vec![0u8; 4]]);
    assert_eq!(target_port::try_filter(&BpfContext::new(arp, 0)), Ok(FilterResult::Pass));
    let short = vec![0u8; 13];
    assert_eq!(target_port::try_filter(&BpfContext::new(short.clone(), 0)), Err(TargetPortError::Bounds));
    assert_eq!(target_port::main(&BpfContext::new(short.clone(), 0)), FilterResult::Abort);
    let ctx = BPFilterContext { packet: BpfContext::new(short, 0) };
    assert_eq!(target_port::filter(&ctx), 0);
    let icmp = join(&[eth(0x0800), ipv4(1, [10, 0, 0, 1], [10, 0, 0, 2]), vec![0u8; 20]]);
    assert_eq!(
        target_port::try_filter(&BpfContext::new(icmp, 0)),
        Err(TargetPortError::UnsupportedProtocol)
    );
    let mut cut = join(&[eth(0x0800), ipv4(6, [10, 0, 0, 1], [10, 0, 0, 2]), tcp(4000, 12345)]);
    cut.truncate(53);
    assert_eq!(target_port::try_filter(&BpfContext::new(cut, 0)), Err(TargetPortError::Bounds));
    let mut cut_udp = join(&[eth(0x0800), ipv4(17, [10, 0, 0, 1], [10, 0, 0, 2]), udp(1, 12345)]);
    assert_eq!(cut_udp.len(), 42);
    assert_eq!(target_port::try_filter(&BpfContext::new(cut_udp.clone(), 0)), Ok(FilterResult::Drop));
    cut_udp.truncate(41);
    assert_eq!(target_port::try_filter(&BpfContext::new(cut_udp, 0)), Err(TargetPortError::Bounds));
}

#[test]
fn classifier_tells_udp_from_tcp() {
    let u = join(&[eth(0x0800), ipv4(17, [1, 1, 1, 1], [2, 2, 2, 2]), udp(1, 2)]);
    let t = join(&[eth(0x0800), ipv4(6, [1, 1, 1, 1], [2, 2, 2, 2]), tcp(1, 2)]);
    let i = join(&[eth(0x0800), ipv4(1, [1, 1, 1, 1], [2, 2, 2, 2])]);
    let v6 = join(&[eth(0x86dd), vec![0u8; 40]]);
    assert_eq!(udp_tcp_classifier::try_classify(&BpfContext::new(u.clone(), 0)), Ok(ClassifyResult::Udp));
    assert_eq!(udp_tcp_classifier::try_classify(&BpfContext::new(t.clone(), 0)), Ok(ClassifyResult::Tcp));
    assert_eq!(udp_tcp_classifier::try_classify(&BpfContext::new(i, 0)), Ok(ClassifyResult::Rest));
    assert_eq!(udp_tcp_classifier::try_classify(&BpfContext::new(v6, 0)), Ok(ClassifyResult::Rest));
    assert_eq!(udp_tcp_classifier::classify(&ClassifierContext { packet: BpfContext::new(u, 0) }), 0);
    assert_eq!(udp_tcp_classifier::classify(&ClassifierContext { packet: BpfContext::new(t, 0) }), 1);
    let short = vec![0u8; 5];
    assert!(udp_tcp_classifier::try_classify(&BpfContext::new(short.clone(), 0)).is_err());
    assert_eq!(udp_tcp_classifier::classify(&ClassifierContext { packet: BpfContext::new(short, 0) }), 2);
    let mut bad_ihl = join(&[eth(0x0800), ipv4(17, [1, 1, 1, 1], [2, 2, 2, 2]), udp(1, 2)]);
    bad_ihl[14] = 0x44;
    assert_eq!(udp_tcp_classifier::try_classify(&BpfContext::new(bad_ihl, 0)), Ok(ClassifyResult::Rest));
}

#[test]
fn round_robin_with_two_outputs() {
    let mut counter: FixedArray<u32> = FixedArray::new(1, 0);
    let mut seen = Vec::new();
    for _ in 0..6 {
        seen.push(round_robin::main(&mut counter));
    }
    assert_eq!(seen, vec![0, 1, 0, 1, 0, 1]);
}

#[test]
fn round_robin_with_three_outputs_and_edges() {
    let mut counter: FixedArray<u32> = FixedArray::new(1, 0);
    let mut seen = Vec::new();
    for _ in 0..7 {
        seen.push(round_robin::try_classify(&mut counter, 3));
    }
    assert_eq!(seen, vec![Ok(0), Ok(1), Ok(2), Ok(0), Ok(1), Ok(2), Ok(0)]);
    assert_eq!(round_robin::try_classify(&mut counter, 0), Err(RoundRobinError::NoOutputs));
    let mut none: FixedArray<u32> = FixedArray::new(0, 0);
    assert_eq!(round_robin::try_classify(&mut none, 2), Err(RoundRobinError::MissingStore));
    assert_eq!(round_robin::main(&mut none), 0);
    let mut high: FixedArray<u32> = FixedArray::new(1, u32::MAX);
    assert_eq!(round_robin::try_classify(&mut high, 2), Ok(1));
    assert_eq!(high.get(0), Some(&0));
}

#[test]
fn bucket_grants_and_spends() {
    let mut b = RateLimit::new(5);
    assert_eq!(b, RateLimit { tokens: 3, last_token_grant: 5 });
    assert!(b.spend_token());
    assert_eq!(b.tokens, 1);
    assert!(!b.spend_token());
    assert_eq!(b.tokens, 1);
    b.grant_tokens_if_needed(5 + 999_999_999);
    assert_eq!(b, RateLimit { tokens: 1, last_token_grant: 5 });
    b.grant_tokens_if_needed(5 + 1_000_000_000);
    assert_eq!(b, RateLimit { tokens: 2, last_token_grant: 1_000_000_005 });
    b.grant_tokens_if_needed(u64::MAX);
    assert_eq!(b, RateLimit { tokens: 3, last_token_grant: u64::MAX });
    b.grant_tokens_if_needed(0);
    assert_eq!(b, RateLimit { tokens: 3, last_token_grant: u64::MAX });
    let mut over = RateLimit { tokens: u32::MAX, last_token_grant: 0 };
    over.grant_tokens_if_needed(2_000_000_000);
    assert_eq!(over.tokens, 3);
}

#[test]
fn rate_limiter_three_packets_of_one_source() {
    let frame = join(&[eth(0x0800), ipv4(17, [10, 0, 0, 9], [10, 0, 0, 2]), udp(1, 2)]);
    let ctx = BpfContext::new(frame, 0);
    let mut limits: BoundedMap<u32, RateLimit> = BoundedMap::new(8);
    assert_eq!(rate_limiter::try_filter(&ctx, &mut limits, 100), Ok(FilterResult::Pass));
    assert_eq!(limits.get(&0x0a000009).map(|b| b.tokens), Some(1));
    assert_eq!(rate_limiter::try_filter(&ctx, &mut limits, 100), Ok(FilterResult::Drop));
    assert_eq!(limits.get(&0x0a000009).map(|b| b.tokens), Some(1));
    assert_eq!(rate_limiter::try_filter(&ctx, &mut limits, 1_000_000_100), Ok(FilterResult::Pass));
    assert_eq!(limits.get(&0x0a000009).map(|b| b.tokens), Some(0));
    assert_eq!(limits.len(), 1);
}

#[test]
fn rate_limiter_edges() {
    let mut limits: BoundedMap<u32, RateLimit> = BoundedMap::new(1);
    let a = join(&[eth(0x0800), ipv4(17, [10, 0, 0, 1], [10, 0, 0, 2]), udp(1, 2)]);
    let b = join(&[eth(0x0800), ipv4(17, [10, 0, 0, 3], [10, 0, 0, 2]), udp(1, 2)]);
    assert_eq!(rate_limiter::try_filter(&BpfContext::new(a, 0), &mut limits, 0), Ok(FilterResult::Pass));
    assert_eq!(
        rate_limiter::try_filter(&BpfContext::new(b.clone(), 0), &mut limits, 0),
        Err(RateLimitError::Capacity)
    );
    assert_eq!(limits.len(), 1);
    let ctx = BPFilterContext { packet: BpfContext::new(b, 0) };
    assert_eq!(rate_limiter::filter(&ctx, &mut limits, 0), 0);
    let arp = join(&[eth(0x0806), vec![0u8; 30]]);
    assert_eq!(rate_limiter::try_filter(&BpfContext::new(arp.clone(), 0), &mut limits, 0), Ok(FilterResult::Drop));
    assert_eq!(rate_limiter::filter(&BPFilterContext { packet: BpfContext::new(arp, 0) }, &mut limits, 0), 1);
    let short = join(&[eth(0x0800), vec![0u8; 19]]);
    assert_eq!(
        rate_limiter::try_filter(&BpfContext::new(short, 0), &mut limits, 0),
        Err(RateLimitError::Bounds)
    );
    assert_eq!(
        rate_limiter::try_filter(&BpfContext::new(vec![0u8; 3], 0), &mut limits, 0),
        Err(RateLimitError::Bounds)
    );
    let mut roomy: BoundedMap<u32, RateLimit> = BoundedMap::new(4);
    let c = join(&[eth(0x0800), ipv4(17, [10, 0, 0, 1], [10, 0, 0, 2]), udp(1, 2)]);
    assert_eq!(rate_limiter::filter(&BPFilterContext { packet: BpfContext::new(c, 0) }, &mut roomy, 0), 2);
}

#[test]
fn nat_first_packet_of_a_flow_installs_two_rules() {
    let packet = join(&[ipv4(6, [10, 0, 0, 5], [8, 8, 8, 8]), tcp(1234, 80)]);
    let mut ctx = BpfContext::new(packet, 0);
    let mut table: BoundedMap<u128, Rewrite> = BoundedMap::new(16);
    let mut ports: FixedArray<u32> = FixedArray::new(1, 0);
    assert_eq!(try_classify(&mut ctx, &mut table, &mut ports), Ok(0));
    assert_eq!(table.len(), 2);
    assert_eq!(ports.get(0), Some(&50001));
    assert_eq!(ctx.read_u32(12), Ok(DEV_EX_IP));
    assert_eq!(ctx.read_u32(12), Ok(0xac2c0003));
    assert_eq!(ctx.read_u16(20), Ok(50000));
    assert_eq!(ctx.read_u32(16), Ok(0x08080808));
    assert_eq!(ctx.read_u16(22), Ok(80));
    let flow = Connection {
        src_ip: 0x0a000005,
        src_port: 1234,
        dst_ip: 0x08080808,
        dst_port: 80,
        protocol: Transport::Tcp,
    };
    assert_eq!(
        table.get(&flow.key()),
        Some(&Rewrite { src_ip: DEV_EX_IP, src_port: 50000, dst_ip: 0x08080808, dst_port: 80, output: 0 })
    );
    let reply = Connection {
        src_ip: 0x08080808,
        src_port: 80,
        dst_ip: DEV_EX_IP,
        dst_port: 50000,
        protocol: Transport::Tcp,
    };
    assert_eq!(
        table.get(&reply.key()),
        Some(&Rewrite { src_ip: 0x08080808, src_port: 80, dst_ip: 0x0a000005, dst_port: 1234, output: 0 })
    );
}

#[test]
fn nat_known_flow_and_reply() {
    let mut table: BoundedMap<u128, Rewrite> = BoundedMap::new(16);
    let mut ports: FixedArray<u32> = FixedArray::new(1, 0);
    let out = join(&[ipv4(17, [10, 0, 0, 5], [8, 8, 8, 8]), udp(1234, 53)]);
    let mut first = BpfContext::new(out.clone(), 0);
    assert_eq!(try_classify(&mut first, &mut table, &mut ports), Ok(0));
    let mut second = BpfContext::new(out, 0);
    assert_eq!(try_classify(&mut second, &mut table, &mut ports), Ok(0));
    assert_eq!(second.data, first.data);
    assert_eq!(table.len(), 2);
    assert_eq!(ports.get(0), Some(&50001));
    let back = join(&[ipv4(17, [8, 8, 8, 8], [172, 44, 0, 3]), udp(53, 50000)]);
    let mut reply = BpfContext::new(back, 1);
    assert_eq!(try_classify(&mut reply, &mut table, &mut ports), Ok(0));
    assert_eq!(reply.read_u32(12), Ok(0x08080808));
    assert_eq!(reply.read_u16(20), Ok(53));
    assert_eq!(reply.read_u32(16), Ok(0x0a000005));
    assert_eq!(reply.read_u16(22), Ok(1234));
    assert_eq!(table.len(), 2);
}

#[test]
fn nat_ports_cycle() {
    let mut ports: FixedArray<u32> = FixedArray::new(1, 0);
    assert_eq!(next_port(&mut ports), Ok(50000));
    assert_eq!(next_port(&mut ports), Ok(50001));
    *ports.get_mut(0).unwrap() = 65534;
    assert_eq!(next_port(&mut ports), Ok(65534));
    assert_eq!(ports.get(0), Some(&50000));
    assert_eq!(next_port(&mut ports), Ok(50000));
    *ports.get_mut(0).unwrap() = 65535;
    assert_eq!(next_port(&mut ports), Ok(50000));
    *ports.get_mut(0).unwrap() = 17;
    assert_eq!(next_port(&mut ports), Ok(50000));
    let mut none: FixedArray<u32> = FixedArray::new(0, 0);
    assert_eq!(next_port(&mut none), Err(NatError::MissingStore));
}

#[test]
fn nat_refusals_change_nothing() {
    let mut table: BoundedMap<u128, Rewrite> = BoundedMap::new(1);
    let mut ports: FixedArray<u32> = FixedArray::new(1, 0);
    let packet = join(&[ipv4(6, [10, 0, 0, 5], [8, 8, 8, 8]), tcp(1234, 80)]);
    let mut outside = BpfContext::new(packet.clone(), 1);
    assert_eq!(try_classify(&mut outside, &mut table, &mut ports), Err(NatError::UnexpectedReply));
    let mut odd = BpfContext::new(packet.clone(), 2);
    assert_eq!(try_classify(&mut odd, &mut table, &mut ports), Err(NatError::UnknownInput));
    let mut full = BpfContext::new(packet.clone(), 0);
    assert_eq!(try_classify(&mut full, &mut table, &mut ports), Err(NatError::Capacity));
    assert_eq!(full.data, packet);
    assert_eq!(table.len(), 0);
    assert_eq!(ports.get(0), Some(&0));
    let mut none: FixedArray<u32> = FixedArray::new(0, 0);
    let mut roomy: BoundedMap<u128, Rewrite> = BoundedMap::new(4);
    let mut ctx = BpfContext::new(packet.clone(), 0);
    assert_eq!(try_classify(&mut ctx, &mut roomy, &mut none), Err(NatError::MissingStore));
    let icmp = join(&[ipv4(1, [10, 0, 0, 5], [8, 8, 8, 8]), vec![0u8; 8]]);
    assert_eq!(parse_connection(&BpfContext::new(icmp, 0)), Err(NatError::UnsupportedProtocol));
    assert_eq!(parse_connection(&BpfContext::new(vec![0u8; 19], 0)), Err(NatError::Bounds));
    let mut cut = packet.clone();
    cut.truncate(39);
    assert_eq!(parse_connection(&BpfContext::new(cut.clone(), 0)), Err(NatError::Bounds));
    let flow = parse_connection(&BpfContext::new(packet, 0)).unwrap();
    assert_eq!(flow.key(), (0x0a000005u128 << 72) | (1234u128 << 56) | (0x08080808u128 << 24) | (80u128 << 8) | 6);
    let rule = Rewrite { src_ip: 1, src_port: 2, dst_ip: 3, dst_port: 4, output: 0 };
    let mut short = BpfContext::new(cut.clone(), 0);
    assert_eq!(apply_rewrite(&mut short, &flow, &rule), Err(NatError::Bounds));
    assert_eq!(short.data, cut);
}

#[test]
fn string_matcher_finds_the_word() {
    let mut with = vec![0u8; 40];
    with.extend_from_slice(b"xxleetcodexx");
    assert_eq!(stringmatcher::try_filter(&BpfContext::new(with, 0)), FilterResult::Drop);
    let mut at_end = vec![0u8; 40];
    at_end.extend_from_slice(b"leetcode");
    assert_eq!(stringmatcher::main(&BpfContext::new(at_end, 0)), FilterResult::Drop);
    let mut without = vec![0u8; 40];
    without.extend_from_slice(b"leetcod3 leet code");
    assert_eq!(stringmatcher::try_filter(&BpfContext::new(without, 0)), FilterResult::Pass);
    assert_eq!(stringmatcher::try_filter(&BpfContext::new(vec![0u8; 19], 0)), FilterResult::Abort);
    let mut late = vec![0u8; 1995];
    late.extend_from_slice(b"leetcode");
    assert_eq!(stringmatcher::try_filter(&BpfContext::new(late, 0)), FilterResult::Pass);
    let mut just = vec![0u8; 1992];
    just.extend_from_slice(b"leetcode");
    assert_eq!(stringmatcher::try_filter(&BpfContext::new(just, 0)), FilterResult::Drop);
    let mut restart = vec![0u8; 20];
    restart.extend_from_slice(b"lleetcode");
    assert_eq!(stringmatcher::try_filter(&BpfContext::new(restart, 0)), FilterResult::Pass);
}

#[test]
fn strip_header_plain_and_tagged() {
    let plain = join(&[eth(0x0800), vec![9, 8, 7, 6, 5]]);
    let mut ctx = BpfContext::new(plain, 3);
    assert_eq!(strip_ether_vlan_header::try_rewrite(&mut ctx), Ok(()));
    assert_eq!(ctx.data, vec![9, 8, 7, 6, 5]);
    assert_eq!(ctx.port, 3);
    let tagged = join(&[eth(0x8100), vec![0, 1, 8, 0], vec![9, 8, 7]]);
    let mut ctx = RewriterContext { packet: BpfContext::new(tagged, 0) };
    assert_eq!(strip_ether_vlan_header::rewrite(&mut ctx), RewriterResult::Success);
    assert_eq!(ctx.packet.data, vec![9, 8, 7]);
    let mut short = BpfContext::new(vec![0u8; 13], 0);
    assert_eq!(strip_ether_vlan_header::try_rewrite(&mut short), Err(StripError::Bounds));
    assert_eq!(short.data, vec![0u8; 13]);
    let cut = join(&[eth(0x8100), vec![0, 1, 8]]);
    let mut ctx = BpfContext::new(cut.clone(), 0);
    assert_eq!(strip_ether_vlan_header::try_rewrite(&mut ctx), Err(StripError::Resize));
    assert_eq!(ctx.data, cut);
    let mut ctx = RewriterContext { packet: BpfContext::new(cut, 0) };
    assert_eq!(strip_ether_vlan_header::rewrite(&mut ctx), RewriterResult::Abort);
    let mut exact = BpfContext::new(eth(0x0800), 0);
    assert_eq!(strip_ether_vlan_header::try_rewrite(&mut exact), Ok(()));
    assert_eq!(exact.data, Vec::<u8>::new());
}

#[test]
fn ether_mirror_exchanges_the_addresses() {
    let frame = join(&[eth(0x0800), vec![42]]);
    let mut ctx = RewriterContext { packet: BpfContext::new(frame, 0) };
    assert_eq!(ether_mirror::rewrite(&mut ctx), RewriterResult::Success);
    assert_eq!(ctx.packet.data, vec![11, 12, 13, 14, 15, 16, 1, 2, 3, 4, 5, 6, 8, 0, 42]);
    let mut short = RewriterContext { packet: BpfContext::new(vec![1u8; 13], 0) };
    assert_eq!(ether_mirror::rewrite(&mut short), RewriterResult::Abort);
    assert_eq!(short.packet.data, vec![1u8; 13]);
    assert!(ether_mirror::try_rewrite(&mut short.packet).is_err());
}

#[test]
fn firewall_drops_everything() {
    let packet = join(&[ipv4(6, [10, 0, 0, 5], [8, 8, 8, 8]), tcp(1234, 80)]);
    assert_eq!(firewall::try_classify(&BpfContext::new(packet.clone(), 0)), Ok(FilterResult::Drop));
    assert_eq!(firewall::main(&BpfContext::new(packet, 0)), FilterResult::Drop);
    assert_eq!(firewall::try_classify(&BpfContext::new(vec![0u8; 3], 0)), Err(NatError::Bounds));
    assert_eq!(firewall::main(&BpfContext::new(vec![0u8; 3], 0)), FilterResult::Drop);
}

#[test]
fn counter_v1_lets_ten_through() {
    let mut counter: FixedArray<u32> = FixedArray::new(1, 0);
    for _ in 0..10 {
        assert_eq!(main_v1(&mut counter), FilterResult::Pass);
    }
    assert_eq!(main_v1(&mut counter), FilterResult::Drop);
    assert_eq!(counter.get(0), Some(&11));
    let mut none: FixedArray<u32> = FixedArray::new(0, 0);
    assert_eq!(main_v1(&mut none), FilterResult::Abort);
    let mut top: FixedArray<u32> = FixedArray::new(1, u32::MAX);
    assert_eq!(main_v1(&mut top), FilterResult::Drop);
    assert_eq!(top.get(0), Some(&u32::MAX));
}

#[test]
fn migration_takes_over_the_count_once() {
    let mut version: FixedArray<u64> = FixedArray::new(1, 1);
    let mut old: FixedArray<u32> = FixedArray::new(1, 7);
    let mut new: FixedArray<u64> = FixedArray::new(1, 0);
    assert_eq!(handle_migration(&mut version, Some(&old), &mut new), Ok(()));
    assert_eq!(new.get(0), Some(&7));
    assert_eq!(version.get(0), Some(&2));
    *old.get_mut(0).unwrap() = 100;
    assert_eq!(handle_migration(&mut version, Some(&old), &mut new), Ok(()));
    assert_eq!(new.get(0), Some(&7));
    assert_eq!(version.get(0), Some(&2));
    assert_eq!(handle_migration(&mut version, None, &mut new), Ok(()));
    assert_eq!(new.get(0), Some(&7));
}

#[test]
fn counter_v2_counts_on_from_the_old_count() {
    let mut version: FixedArray<u64> = FixedArray::new(1, 1);
    let mut old: FixedArray<u32> = FixedArray::new(1, 7);
    let mut new: FixedArray<u64> = FixedArray::new(1, 0);
    assert_eq!(main_v2(&mut version, Some(&old), &mut new), FilterResult::Pass);
    assert_eq!(new.get(0), Some(&8));
    assert_eq!(version.get(0), Some(&2));
    *old.get_mut(0).unwrap() = 1000;
    assert_eq!(main_v2(&mut version, Some(&old), &mut new), FilterResult::Pass);
    assert_eq!(main_v2(&mut version, Some(&old), &mut new), FilterResult::Pass);
    assert_eq!(new.get(0), Some(&10));
    assert_eq!(main_v2(&mut version, None, &mut new), FilterResult::Drop);
    assert_eq!(new.get(0), Some(&11));
}

#[test]
fn migration_fails_closed() {
    let mut version: FixedArray<u64> = FixedArray::new(1, 1);
    let mut new: FixedArray<u64> = FixedArray::new(1, 3);
    assert_eq!(handle_migration(&mut version, None, &mut new), Err(MigrationError::MissingOldStore));
    let empty: FixedArray<u32> = FixedArray::new(0, 0);
    assert_eq!(
        handle_migration(&mut version, Some(&empty), &mut new),
        Err(MigrationError::MissingOldStore)
    );
    assert_eq!(main_v2(&mut version, None, &mut new), FilterResult::Abort);
    assert_eq!(new.get(0), Some(&3));
    assert_eq!(version.get(0), Some(&1));
    let old: FixedArray<u32> = FixedArray::new(1, 7);
    let mut no_version: FixedArray<u64> = FixedArray::new(0, 0);
    assert_eq!(
        handle_migration(&mut no_version, Some(&old), &mut new),
        Err(MigrationError::MissingVersion)
    );
    let mut no_new: FixedArray<u64> = FixedArray::new(0, 0);
    assert_eq!(
        handle_migration(&mut version, Some(&old), &mut no_new),
        Err(MigrationError::MissingNewStore)
    );
    assert_eq!(version.get(0), Some(&1));
}

#[test]
fn dns_filter_finds_the_query() {
    let mut query = join(&[eth(0x0800), ipv4(17, [10, 0, 0, 1], [10, 0, 0, 53]), udp(4000, 53)]);
    query[14 + 20 + 4] = 0;
    query[14 + 20 + 5] = 5;
    query.extend_from_slice(&[1, 2, 3, 4, 5, 6]);
    let ctx = BpfContext::new(query.clone(), 0);
    assert_eq!(dns_filter::try_filter(&ctx), Ok(Some(&[1u8, 2, 3, 4, 5][..])));
    let other = join(&[eth(0x0800), ipv4(17, [10, 0, 0, 1], [10, 0, 0, 53]), udp(53, 4000)]);
    assert_eq!(dns_filter::try_filter(&BpfContext::new(other, 0)), Ok(None));
    let tcp_frame = join(&[eth(0x0800), ipv4(6, [10, 0, 0, 1], [10, 0, 0, 53]), tcp(4000, 53)]);
    assert_eq!(dns_filter::try_filter(&BpfContext::new(tcp_frame, 0)), Ok(None));
    let arp = join(&[eth(0x0806), vec![0u8; 4]]);
    assert_eq!(dns_filter::try_filter(&BpfContext::new(arp, 0)), Ok(None));
    let mut cut = query.clone();
    cut.truncate(14 + 20 + 8 + 4);
    assert!(dns_filter::try_filter(&BpfContext::new(cut, 0)).is_err());
    let mut options = query.clone();
    options[14] = 0x46;
    assert!(dns_filter::try_filter(&BpfContext::new(options.clone(), 0)).is_ok());
    options[14] = 0x44;
    assert_eq!(dns_filter::try_filter(&BpfContext::new(options, 0)), Ok(None));
    assert!(dns_filter::try_filter(&BpfContext::new(vec![0u8; 13], 0)).is_err());
    assert_eq!(dns_filter::verdict(&DnsScan::Malformed), FilterResult::Abort);
    assert_eq!(dns_filter::verdict(&DnsScan::NoQuestions), FilterResult::Drop);
    assert_eq!(dns_filter::verdict(&DnsScan::Questions(vec![])), FilterResult::Pass);
    assert_eq!(
        dns_filter::verdict(&DnsScan::Questions(vec![Question::Named { blocked: false }])),
        FilterResult::Pass
    );
    assert_eq!(
        dns_filter::verdict(&DnsScan::Questions(vec![
            Question::Named { blocked: false },
            Question::Named { blocked: true },
        ])),
        FilterResult::Drop
    );
    assert_eq!(
        dns_filter::verdict(&DnsScan::Questions(vec![
            Question::Named { blocked: false },
            Question::Unreadable,
        ])),
        FilterResult::Drop
    );
}
