//! Network address rewriting (NAT) by a table of flows. A packet of a flow that the table
//! knows is rewritten as the table says. The first packet of a new flow from
//! the internal side installs two rules, one for the flow and one for its
//! replies, and is rewritten by the first.

use crate::headers::{
    ip_proto_tcp, ip_proto_udp, ipv4_hdr_len, tcp_hdr_len, udp_hdr_len, IPPROTO_TCP, IPPROTO_UDP,
    IPV4_DST_OFFSET, IPV4_HDR_LEN, IPV4_PROTO_OFFSET, IPV4_SRC_OFFSET, L4_DST_PORT_OFFSET,
    L4_SRC_PORT_OFFSET, TCP_HDR_LEN, UDP_HDR_LEN,
};
use crate::packet::{be16, be16_bytes, be32, be32_bytes, overwritten, BpfContext};
use crate::store::{BoundedMap, FixedArray};
use vstd::prelude::*;

verus! {

broadcast use vstd::std_specs::hash::group_hash_axioms;

/// Number of outputs of the NAT.
pub const OUTPUTS: u32 = 2;

/// First port that the NAT hands out.
pub const PORT_START: u16 = 50000;

/// End of the range of ports that the NAT hands out; itself no port of
/// the range.
pub const PORT_END: u16 = 65535;

/// Output towards the outside network.
pub const FOUTPUT: u32 = 0;

/// Output towards the internal network.
pub const ROUTPUT: u32 = 1;

/// Input on which packets of the internal network arrive.
pub const INTERNAL_INPUT: u32 = 0;

/// Input on which packets of the outside network arrive.
pub const EXTERNAL_INPUT: u32 = 1;

/// Where the IPv4 header starts in a packet.
pub const PACKET_START: usize = 0;

/// Address of the interface towards the outside network: 172.44.0.3.
pub const DEV_EX_IP: u32 = 0xac2c0003;

/// Number of rules that the table of flows may hold.
pub const CONNECTIONS_CAPACITY: usize = 1028;

/// The transports that the NAT knows.
#[derive(Copy, Clone, Debug, PartialEq, Eq, Structural)]
pub enum Transport {
    Tcp,
    Udp,
}

/// A flow: who sends to whom, over which transport.
#[derive(Copy, Clone, Debug, PartialEq, Eq, Structural)]
pub struct Connection {
    pub src_ip: u32,
    pub src_port: u16,
    pub dst_ip: u32,
    pub dst_port: u16,
    pub protocol: Transport,
}

/// What the packets of a flow get in place of their addresses and ports, and
/// the output they leave by.
#[derive(Copy, Clone, Debug, PartialEq, Eq, Structural)]
pub struct Rewrite {
    pub src_ip: u32,
    pub src_port: u16,
    pub dst_ip: u32,
    pub dst_port: u16,
    pub output: u32,
}

/// Why the NAT gave no output for a packet.
#[derive(Copy, Clone, Debug, PartialEq, Eq, Structural)]
pub enum NatError {
    /// A header does not lie inside the packet.
    Bounds,
    /// The packet carries neither TCP nor UDP.
    UnsupportedProtocol,
    /// A packet from outside belongs to no flow of the table.
    UnexpectedReply,
    /// A packet of a new flow arrived on an input that is neither side.
    UnknownInput,
    /// The store of the next port has no place.
    MissingStore,
    /// The table has no room for the two rules of a new flow.
    Capacity,
}

impl Transport {
    /// The protocol number of the transport in an IPv4 header.
    pub open spec fn spec_number(self) -> u8 {
        match self {
            Transport::Tcp => IPPROTO_TCP,
            Transport::Udp => IPPROTO_UDP,
        }
    }

    /// Length of the fixed part of the transport's header.
    pub open spec fn spec_header_len(self) -> usize {
        match self {
            Transport::Tcp => TCP_HDR_LEN,
            Transport::Udp => UDP_HDR_LEN,
        }
    }

    /// The protocol number of the transport in an IPv4 header.
    pub fn number(self) -> (n: u8)
        ensures
            n == self.spec_number(),
    {
        match self {
            Transport::Tcp => ip_proto_tcp(),
            Transport::Udp => ip_proto_udp(),
        }
    }

    /// Length of the fixed part of the transport's header.
    pub fn header_len(self) -> (n: usize)
        ensures
            n == self.spec_header_len(),
    {
        match self {
            Transport::Tcp => tcp_hdr_len(),
            Transport::Udp => udp_hdr_len(),
        }
    }
}

impl Connection {
    /// The flow as one number, under which the table keeps its rule: the five
    /// fields side by side, the protocol number in the lowest byte.
    pub open spec fn spec_key(self) -> u128 {
        (self.src_ip * 0x1_0000_0000_0000_0000_00 + self.src_port * 0x1_0000_0000_0000_00
            + self.dst_ip * 0x1_0000_00 + self.dst_port * 0x1_00
            + self.protocol.spec_number()) as u128
    }

    /// The flow as one number, under which the table keeps its rule.
    pub fn key(&self) -> (k: u128)
        ensures
            k == self.spec_key(),
    {
        let a: u128 = (self.src_ip as u128) * 0x1_0000_0000_0000_0000_00;
        let b: u128 = (self.src_port as u128) * 0x1_0000_0000_0000_00;
        let c: u128 = (self.dst_ip as u128) * 0x1_0000_00;
        let d: u128 = (self.dst_port as u128) * 0x1_00;
        let e: u128 = self.protocol.number() as u128;
        a + b + c + d + e
    }
}

/// A number written as a multiple of `m` and a rest below `m` is written so
/// in one way only.
proof fn lemma_radix(q1: int, r1: int, q2: int, r2: int, m: int)
    by (nonlinear_arith)
    requires
        m > 0,
        0 <= r1 < m,
        0 <= r2 < m,
        q1 * m + r1 == q2 * m + r2,
    ensures
        q1 == q2,
        r1 == r2,
{
}

/// Two flows have the same key only if they are the same flow.
pub proof fn lemma_key_injective(a: Connection, b: Connection)
    requires
        a.spec_key() == b.spec_key(),
    ensures
        a == b,
{
    let a3 = a.src_ip * 0x1_0000 + a.src_port;
    let b3 = b.src_ip * 0x1_0000 + b.src_port;
    let a2 = a3 * 0x1_0000_0000 + a.dst_ip;
    let b2 = b3 * 0x1_0000_0000 + b.dst_ip;
    let a1 = a2 * 0x1_0000 + a.dst_port;
    let b1 = b2 * 0x1_0000 + b.dst_port;
    let pa = a.protocol.spec_number() as int;
    let pb = b.protocol.spec_number() as int;
    assert(a.spec_key() == a1 * 0x1_00 + pa);
    assert(b.spec_key() == b1 * 0x1_00 + pb);
    lemma_radix(a1, pa, b1, pb, 0x1_00);
    lemma_radix(a2, a.dst_port as int, b2, b.dst_port as int, 0x1_0000);
    lemma_radix(a3, a.dst_ip as int, b3, b.dst_ip as int, 0x1_0000_0000);
    lemma_radix(a.src_ip as int, a.src_port as int, b.src_ip as int, b.src_port as int, 0x1_0000);
}

/// The flow that a packet belongs to, read from its IPv4 header and the TCP
/// or UDP header behind it; or why there is none.
pub open spec fn spec_connection(bytes: Seq<u8>) -> Result<Connection, NatError> {
    let ip = PACKET_START as int;
    let l4 = PACKET_START + IPV4_HDR_LEN;
    if bytes.len() < ip + IPV4_HDR_LEN {
        Err(NatError::Bounds)
    } else {
        let proto = bytes[ip + IPV4_PROTO_OFFSET];
        if proto != IPPROTO_TCP && proto != IPPROTO_UDP {
            Err(NatError::UnsupportedProtocol)
        } else {
            let protocol = if proto == IPPROTO_TCP {
                Transport::Tcp
            } else {
                Transport::Udp
            };
            if bytes.len() < l4 + protocol.spec_header_len() {
                Err(NatError::Bounds)
            } else {
                Ok(
                    (Connection {
                        src_ip: be32(bytes.subrange(ip + IPV4_SRC_OFFSET, ip + IPV4_SRC_OFFSET + 4)),
                        src_port: be16(
                            bytes.subrange(l4 + L4_SRC_PORT_OFFSET, l4 + L4_SRC_PORT_OFFSET + 2),
                        ),
                        dst_ip: be32(bytes.subrange(ip + IPV4_DST_OFFSET, ip + IPV4_DST_OFFSET + 4)),
                        dst_port: be16(
                            bytes.subrange(l4 + L4_DST_PORT_OFFSET, l4 + L4_DST_PORT_OFFSET + 2),
                        ),
                        protocol,
                    }),
                )
            }
        }
    }
}

/// Reads the flow that the packet belongs to.
pub fn parse_connection(ctx: &BpfContext) -> (r: Result<Connection, NatError>)
    ensures
        r == spec_connection(ctx.bytes()),
{
    let ip_len = ipv4_hdr_len();
    if ctx.get_ptr(PACKET_START, ip_len).is_err() {
        return Err(NatError::Bounds);
    }
    let proto = match ctx.read_u8(PACKET_START + IPV4_PROTO_OFFSET) {
        Ok(p) => p,
        Err(_) => {
            return Err(NatError::Bounds);
        },
    };
    let protocol = if proto == ip_proto_tcp() {
        Transport::Tcp
    } else if proto == ip_proto_udp() {
        Transport::Udp
    } else {
        return Err(NatError::UnsupportedProtocol);
    };
    let l4 = PACKET_START + ip_len;
    if ctx.get_ptr(l4, protocol.header_len()).is_err() {
        return Err(NatError::Bounds);
    }
    let src_ip = ctx.read_u32(PACKET_START + IPV4_SRC_OFFSET);
    let dst_ip = ctx.read_u32(PACKET_START + IPV4_DST_OFFSET);
    let src_port = ctx.read_u16(l4 + L4_SRC_PORT_OFFSET);
    let dst_port = ctx.read_u16(l4 + L4_DST_PORT_OFFSET);
    match (src_ip, dst_ip, src_port, dst_port) {
        (Ok(src_ip), Ok(dst_ip), Ok(src_port), Ok(dst_port)) => Ok(
            Connection { src_ip, src_port, dst_ip, dst_port, protocol },
        ),
        _ => Err(NatError::Bounds),
    }
}

/// The port that the store of the next port stands for: what it holds, or
/// the first port of the range where it holds none of the range, as a fresh
/// store does.
pub open spec fn current_port(stored: u32) -> u16 {
    if PORT_START <= stored < PORT_END {
        stored as u16
    } else {
        PORT_START
    }
}

/// The port handed out after `port`: the next one, and the first of the range
/// after the last.
pub open spec fn following_port(port: u16) -> u16 {
    if port + 1 >= PORT_END {
        PORT_START
    } else {
        (port + 1) as u16
    }
}

/// Hands out the next port of the range and moves the store on by one,
/// cyclically. Without a place in the store nothing is handed out.
pub fn next_port(store: &mut FixedArray<u32>) -> (r: Result<u16, NatError>)
    ensures
        match r {
            Ok(port) => old(store)@.len() > 0 && port == current_port(old(store)@[0]) && final(store)@ == old(store)@.update(0, following_port(port) as u32),
            Err(e) => e == NatError::MissingStore && old(store)@.len() == 0 && final(store)@
                == old(store)@,
        },
{
    match store.get_mut(0) {
        None => Err(NatError::MissingStore),
        Some(slot) => {
            let stored: u32 = *slot;
            let port: u16 = if PORT_START as u32 <= stored && stored < PORT_END as u32 {
                stored as u16
            } else {
                PORT_START
            };
            let next: u16 = if port + 1 >= PORT_END {
                PORT_START
            } else {
                port + 1
            };
            *slot = next as u32;
            Ok(port)
        },
    }
}

/// Every port handed out lies in the range, and the port handed out next is
/// the one that follows it cyclically: after 65534 comes 50000.
pub proof fn lemma_ports_cycle(stored: u32)
    ensures
        PORT_START <= current_port(stored) < PORT_END,
        current_port(following_port(current_port(stored)) as u32) == following_port(
            current_port(stored),
        ),
        current_port(stored) == 65534 ==> following_port(current_port(stored)) == 50000,
        current_port(stored) < 65534 ==> following_port(current_port(stored)) == current_port(
            stored,
        ) + 1,
{
}

/// The packet with the addresses and ports of `rewrite` in place of its own.
pub open spec fn spec_rewritten(bytes: Seq<u8>, rewrite: Rewrite) -> Seq<u8> {
    let ip = PACKET_START as int;
    let l4 = PACKET_START + IPV4_HDR_LEN;
    let with_src = overwritten(bytes, ip + IPV4_SRC_OFFSET, be32_bytes(rewrite.src_ip));
    let with_dst = overwritten(with_src, ip + IPV4_DST_OFFSET, be32_bytes(rewrite.dst_ip));
    let with_sport = overwritten(with_dst, l4 + L4_SRC_PORT_OFFSET, be16_bytes(rewrite.src_port));
    overwritten(with_sport, l4 + L4_DST_PORT_OFFSET, be16_bytes(rewrite.dst_port))
}

/// Whether the headers of a packet of `conn`'s transport lie inside `len`
/// bytes.
pub open spec fn headers_fit(len: nat, conn: Connection) -> bool {
    len >= PACKET_START + IPV4_HDR_LEN + conn.protocol.spec_header_len()
}

/// Puts the addresses and ports of `rewrite` into the packet's headers. A
/// packet too short for the headers of `conn`'s transport stays as it is.
pub fn apply_rewrite(ctx: &mut BpfContext, conn: &Connection, rewrite: &Rewrite) -> (r: Result<
    (),
    NatError,
>)
    ensures
        final(ctx).port == old(ctx).port,
        match r {
            Ok(_) => headers_fit(old(ctx).bytes().len(), *conn) && final(ctx).bytes()
                == spec_rewritten(old(ctx).bytes(), *rewrite),
            Err(e) => e == NatError::Bounds && !headers_fit(old(ctx).bytes().len(), *conn)
                && final(ctx).bytes() == old(ctx).bytes(),
        },
{
    let l4 = PACKET_START + ipv4_hdr_len();
    if ctx.get_ptr(l4, conn.protocol.header_len()).is_err() {
        return Err(NatError::Bounds);
    }
    let a = ctx.write_u32(PACKET_START + IPV4_SRC_OFFSET, rewrite.src_ip);
    let b = ctx.write_u32(PACKET_START + IPV4_DST_OFFSET, rewrite.dst_ip);
    let c = ctx.write_u16(l4 + L4_SRC_PORT_OFFSET, rewrite.src_port);
    let d = ctx.write_u16(l4 + L4_DST_PORT_OFFSET, rewrite.dst_port);
    match (a, b, c, d) {
        (Ok(_), Ok(_), Ok(_), Ok(_)) => Ok(()),
        _ => Err(NatError::Bounds),
    }
}

/// The rule for the packets of a new flow on their way out: they seem to
/// come from the outside interface and the port handed out.
pub open spec fn forward_rule(conn: Connection, nat_port: u16) -> Rewrite {
    Rewrite {
        src_ip: DEV_EX_IP,
        src_port: nat_port,
        dst_ip: conn.dst_ip,
        dst_port: conn.dst_port,
        output: FOUTPUT,
    }
}

/// The flow that the replies to a new flow belong to.
pub open spec fn reverse_key(conn: Connection, nat_port: u16) -> Connection {
    Connection {
        src_ip: conn.dst_ip,
        src_port: conn.dst_port,
        dst_ip: DEV_EX_IP,
        dst_port: nat_port,
        protocol: conn.protocol,
    }
}

/// The rule for the replies to a new flow: they go to the address and port
/// that the flow came from.
pub open spec fn reverse_rule(conn: Connection) -> Rewrite {
    Rewrite {
        src_ip: conn.dst_ip,
        src_port: conn.dst_port,
        dst_ip: conn.src_ip,
        dst_port: conn.src_port,
        output: FOUTPUT,
    }
}

/// How many keys the two rules of a new flow add to the table.
pub open spec fn rules_needed(table: Map<u128, Rewrite>, conn: Connection, nat_port: u16) -> nat {
    let rkey = reverse_key(conn, nat_port).spec_key();
    if rkey == conn.spec_key() || table.contains_key(rkey) {
        1
    } else {
        2
    }
}

/// What the NAT does with the first packet of a flow from the internal
/// side: its answer, the packet, the table and the store of the next port
/// afterwards.
pub open spec fn new_flow_step(
    bytes: Seq<u8>,
    conn: Connection,
    table: Map<u128, Rewrite>,
    capacity: nat,
    ports: Seq<u32>,
) -> (Result<u32, NatError>, Seq<u8>, Map<u128, Rewrite>, Seq<u32>) {
    if ports.len() == 0 {
        (Err(NatError::MissingStore), bytes, table, ports)
    } else {
        let nat_port = current_port(ports[0]);
        if table.len() + rules_needed(table, conn, nat_port) > capacity {
            (Err(NatError::Capacity), bytes, table, ports)
        } else {
            (
                Ok(INTERNAL_INPUT),
                spec_rewritten(bytes, forward_rule(conn, nat_port)),
                table.insert(conn.spec_key(), forward_rule(conn, nat_port)).insert(
                    reverse_key(conn, nat_port).spec_key(),
                    reverse_rule(conn),
                ),
                ports.update(0, following_port(nat_port) as u32),
            )
        }
    }
}

/// What the NAT does with a packet: its answer, the packet, the table
/// and the store of the next port afterwards. `port` is the input that the
/// packet arrived on, `capacity` the number of keys that the table may hold.
pub open spec fn nat_step(
    bytes: Seq<u8>,
    port: u32,
    table: Map<u128, Rewrite>,
    capacity: nat,
    ports: Seq<u32>,
) -> (Result<u32, NatError>, Seq<u8>, Map<u128, Rewrite>, Seq<u32>) {
    match spec_connection(bytes) {
        Err(e) => (Err(e), bytes, table, ports),
        Ok(conn) => {
            if table.contains_key(conn.spec_key()) {
                let rewrite = table[conn.spec_key()];
                (Ok((rewrite.output % OUTPUTS) as u32), spec_rewritten(bytes, rewrite), table, ports)
            } else if port == EXTERNAL_INPUT {
                (Err(NatError::UnexpectedReply), bytes, table, ports)
            } else if port != INTERNAL_INPUT {
                (Err(NatError::UnknownInput), bytes, table, ports)
            } else {
                new_flow_step(bytes, conn, table, capacity, ports)
            }
        },
    }
}

/// Installs the two rules of a new flow from the internal side, hands out
/// its port and rewrites its first packet, as `new_flow_step` says.
fn open_flow(
    ctx: &mut BpfContext,
    conn: &Connection,
    connections: &mut BoundedMap<u128, Rewrite>,
    ports: &mut FixedArray<u32>,
) -> (r: Result<u32, NatError>)
    requires
        old(connections).wf(),
        !old(connections)@.contains_key(conn.spec_key()),
        headers_fit(old(ctx).bytes().len(), *conn),
    ensures
        final(connections).wf(),
        final(connections).spec_capacity() == old(connections).spec_capacity(),
        final(ctx).port == old(ctx).port,
        (r, final(ctx).bytes(), final(connections)@, final(ports)@) == new_flow_step(
            old(ctx).bytes(),
            *conn,
            old(connections)@,
            old(connections).spec_capacity(),
            old(ports)@,
        ),
{
    let stored: u32 = match ports.get(0) {
        Some(stored) => *stored,
        None => {
            return Err(NatError::MissingStore);
        },
    };
    let nat_port: u16 = if PORT_START as u32 <= stored && stored < PORT_END as u32 {
        stored as u16
    } else {
        PORT_START
    };
    let value_to = Rewrite {
        src_ip: DEV_EX_IP,
        src_port: nat_port,
        dst_ip: conn.dst_ip,
        dst_port: conn.dst_port,
        output: FOUTPUT,
    };
    let key_from = Connection {
        src_ip: conn.dst_ip,
        src_port: conn.dst_port,
        dst_ip: DEV_EX_IP,
        dst_port: nat_port,
        protocol: conn.protocol,
    };
    let value_from = Rewrite {
        src_ip: conn.dst_ip,
        src_port: conn.dst_port,
        dst_ip: conn.src_ip,
        dst_port: conn.src_port,
        output: FOUTPUT,
    };
    let key = conn.key();
    let rkey = key_from.key();
    let needed: usize = if rkey == key || connections.get(&rkey).is_some() {
        1
    } else {
        2
    };
    let held = connections.len();
    if needed > connections.capacity() - held {
        return Err(NatError::Capacity);
    }
    assert(value_to == forward_rule(*conn, nat_port));
    assert(key_from == reverse_key(*conn, nat_port));
    assert(value_from == reverse_rule(*conn));
    proof {
        connections.lemma_wf();
    }
    let first = connections.insert(&key, &value_to);
    assert(first.is_ok());
    proof {
        connections.lemma_wf();
        let before = old(connections)@;
        assert(before.insert(key, value_to).dom() =~= before.dom().insert(key));
        assert(before.insert(key, value_to).len() == before.len() + 1);
    }
    let second = connections.insert(&rkey, &value_from);
    assert(second.is_ok());
    let handed = next_port(ports);
    assert(handed == Ok::<u16, NatError>(nat_port));
    let applied = apply_rewrite(ctx, conn, &value_to);
    assert(applied.is_ok());
    Ok(INTERNAL_INPUT)
}

/// Reading a place that was just written gives what was written, and a write
/// elsewhere does not change what a place reads.
proof fn lemma_window(bytes: Seq<u8>, offset: int, value: Seq<u8>, at: int, size: int)
    requires
        0 <= offset,
        offset + value.len() <= bytes.len(),
        0 <= at,
        0 <= size,
        at + size <= bytes.len(),
    ensures
        overwritten(bytes, offset, value).len() == bytes.len(),
        at == offset && size == value.len() ==> overwritten(bytes, offset, value).subrange(
            at,
            at + size,
        ) == value,
        at + size <= offset || offset + value.len() <= at ==> overwritten(
            bytes,
            offset,
            value,
        ).subrange(at, at + size) == bytes.subrange(at, at + size),
{
    if at == offset && size == value.len() {
        assert(overwritten(bytes, offset, value).subrange(at, at + size) =~= value);
    }
    if at + size <= offset || offset + value.len() <= at {
        assert(overwritten(bytes, offset, value).subrange(at, at + size) =~= bytes.subrange(
            at,
            at + size,
        ));
    }
}

/// A rewritten packet belongs to the flow that the rule names: it has the
/// rule's addresses and ports, the transport it had, and its length.
pub proof fn lemma_rewritten_flow(bytes: Seq<u8>, rewrite: Rewrite)
    requires
        spec_connection(bytes).is_ok(),
    ensures
        spec_rewritten(bytes, rewrite).len() == bytes.len(),
        spec_connection(spec_rewritten(bytes, rewrite)) == Ok::<Connection, NatError>(
            Connection {
                src_ip: rewrite.src_ip,
                src_port: rewrite.src_port,
                dst_ip: rewrite.dst_ip,
                dst_port: rewrite.dst_port,
                protocol: spec_connection(bytes).unwrap().protocol,
            },
        ),
{
    let ip = PACKET_START as int;
    let l4 = PACKET_START + IPV4_HDR_LEN;
    let s1 = overwritten(bytes, ip + IPV4_SRC_OFFSET, be32_bytes(rewrite.src_ip));
    let s2 = overwritten(s1, ip + IPV4_DST_OFFSET, be32_bytes(rewrite.dst_ip));
    let s3 = overwritten(s2, l4 + L4_SRC_PORT_OFFSET, be16_bytes(rewrite.src_port));
    let s4 = overwritten(s3, l4 + L4_DST_PORT_OFFSET, be16_bytes(rewrite.dst_port));
    assert(s4 == spec_rewritten(bytes, rewrite));
    crate::packet::lemma_be32_round_trip(rewrite.src_ip);
    crate::packet::lemma_be32_round_trip(rewrite.dst_ip);
    crate::packet::lemma_be16_round_trip(rewrite.src_port);
    crate::packet::lemma_be16_round_trip(rewrite.dst_port);
    // source address
    lemma_window(bytes, ip + IPV4_SRC_OFFSET, be32_bytes(rewrite.src_ip), ip + IPV4_SRC_OFFSET, 4);
    lemma_window(s1, ip + IPV4_DST_OFFSET, be32_bytes(rewrite.dst_ip), ip + IPV4_SRC_OFFSET, 4);
    lemma_window(s2, l4 + L4_SRC_PORT_OFFSET, be16_bytes(rewrite.src_port), ip + IPV4_SRC_OFFSET, 4);
    lemma_window(s3, l4 + L4_DST_PORT_OFFSET, be16_bytes(rewrite.dst_port), ip + IPV4_SRC_OFFSET, 4);
    // destination address
    lemma_window(s1, ip + IPV4_DST_OFFSET, be32_bytes(rewrite.dst_ip), ip + IPV4_DST_OFFSET, 4);
    lemma_window(s2, l4 + L4_SRC_PORT_OFFSET, be16_bytes(rewrite.src_port), ip + IPV4_DST_OFFSET, 4);
    lemma_window(s3, l4 + L4_DST_PORT_OFFSET, be16_bytes(rewrite.dst_port), ip + IPV4_DST_OFFSET, 4);
    // source port
    lemma_window(s2, l4 + L4_SRC_PORT_OFFSET, be16_bytes(rewrite.src_port), l4 + L4_SRC_PORT_OFFSET, 2);
    lemma_window(s3, l4 + L4_DST_PORT_OFFSET, be16_bytes(rewrite.dst_port), l4 + L4_SRC_PORT_OFFSET, 2);
    // destination port
    lemma_window(s3, l4 + L4_DST_PORT_OFFSET, be16_bytes(rewrite.dst_port), l4 + L4_DST_PORT_OFFSET, 2);
    // the protocol byte stays
    assert(s4[ip + IPV4_PROTO_OFFSET] == bytes[ip + IPV4_PROTO_OFFSET]);
}

/// The first packet of a new flow from the internal side, where the table
/// has room and the store of the next port a place: the table gains the rule
/// of the flow and the rule of its replies and nothing else, the packet
/// leaves as coming from the outside interface and a port of the range, and
/// the port handed out next is the one that follows cyclically.
pub proof fn lemma_new_flow(
    bytes: Seq<u8>,
    table: Map<u128, Rewrite>,
    capacity: nat,
    ports: Seq<u32>,
)
    requires
        table.dom().finite(),
        spec_connection(bytes).is_ok(),
        !table.contains_key(spec_connection(bytes).unwrap().spec_key()),
        ports.len() > 0,
        table.len() + 2 <= capacity,
    ensures
        ({
            let conn = spec_connection(bytes).unwrap();
            let nat_port = current_port(ports[0]);
            let fwd_key = conn.spec_key();
            let rev_key = reverse_key(conn, nat_port).spec_key();
            let step = nat_step(bytes, INTERNAL_INPUT, table, capacity, ports);
            &&& step.0 == Ok::<u32, NatError>(INTERNAL_INPUT)
            &&& PORT_START <= nat_port < PORT_END
            &&& step.2.dom() == table.dom().insert(fwd_key).insert(rev_key)
            &&& step.2[rev_key] == reverse_rule(conn)
            &&& fwd_key != rev_key ==> step.2[fwd_key] == forward_rule(conn, nat_port)
            &&& fwd_key != rev_key && !table.contains_key(rev_key) ==> step.2.len() == table.len()
                + 2
            &&& forall|k: u128| k != fwd_key && k != rev_key && table.contains_key(k)
                ==> #[trigger] step.2[k] == table[k]
            &&& spec_connection(step.1) == Ok::<Connection, NatError>(
                Connection {
                    src_ip: DEV_EX_IP,
                    src_port: nat_port,
                    dst_ip: conn.dst_ip,
                    dst_port: conn.dst_port,
                    protocol: conn.protocol,
                },
            )
            &&& step.3[0] == following_port(nat_port)
            &&& current_port(step.3[0]) == following_port(nat_port)
        }),
{
    let conn = spec_connection(bytes).unwrap();
    let nat_port = current_port(ports[0]);
    let fwd_key = conn.spec_key();
    let rev_key = reverse_key(conn, nat_port).spec_key();
    let step = nat_step(bytes, INTERNAL_INPUT, table, capacity, ports);
    lemma_rewritten_flow(bytes, forward_rule(conn, nat_port));
    lemma_ports_cycle(ports[0]);
    assert(step.2.dom() =~= table.dom().insert(fwd_key).insert(rev_key));
}

/// Handles one packet, as `nat_step` says. A packet that gets no output
/// leaves the packet, the table and the store of the next port as they were.
pub fn try_classify(
    ctx: &mut BpfContext,
    connections: &mut BoundedMap<u128, Rewrite>,
    ports: &mut FixedArray<u32>,
) -> (r: Result<u32, NatError>)
    requires
        old(connections).wf(),
    ensures
        final(connections).wf(),
        final(connections).spec_capacity() == old(connections).spec_capacity(),
        final(ctx).port == old(ctx).port,
        (r, final(ctx).bytes(), final(connections)@, final(ports)@) == nat_step(
            old(ctx).bytes(),
            old(ctx).port,
            old(connections)@,
            old(connections).spec_capacity(),
            old(ports)@,
        ),
{
    let port = ctx.port;
    let conn = match parse_connection(ctx) {
        Ok(conn) => conn,
        Err(e) => {
            return Err(e);
        },
    };
    let key = conn.key();
    let known: Option<Rewrite> = match connections.get(&key) {
        Some(rewrite) => Some(*rewrite),
        None => None,
    };
    match known {
        Some(rewrite) => {
            let applied = apply_rewrite(ctx, &conn, &rewrite);
            assert(applied.is_ok());
            Ok(rewrite.output % OUTPUTS)
        },
        None => {
            if port == EXTERNAL_INPUT {
                Err(NatError::UnexpectedReply)
            } else if port != INTERNAL_INPUT {
                Err(NatError::UnknownInput)
            } else {
                open_flow(ctx, &conn, connections, ports)
            }
        },
    }
}

} // verus!
