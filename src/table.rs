//! The connection table: routes each inbound segment to its connection, or opens one.

use vstd::prelude::*;
use std::collections::HashMap;
use crate::header::{decode_frame, decode_spec, encoded_spec, FrameError, Ipv4Fields, Segment, TcpFields};
use crate::tcp::{
    accepted_connection, next_connection, outgoing_tcp, rejects_ack, rst_flags, syn_ack_tcp,
    Connection, Outcome,
};

verus! {

broadcast use vstd::std_specs::hash::group_hash_axioms;

/// The addressing of one flow, as an inbound segment carries it.
#[derive(Clone, Copy, Debug, PartialEq, Eq, Hash)]
pub struct Quad {
    pub src_addr: u32,
    pub src_port: u16,
    pub dst_addr: u32,
    pub dst_port: u16,
}

/// A flow's four fields packed side by side into one integer.
pub open spec fn quad_key(q: Quad) -> u128 {
    ((q.src_addr as u128) << 64u128) | ((q.src_port as u128) << 48u128) | ((q.dst_addr as u128)
        << 16u128) | (q.dst_port as u128)
}

proof fn lemma_key_fields(a: u32, p: u16, b: u32, d: u16)
    by (bit_vector)
    ensures
        ({
            let k = ((a as u128) << 64u128) | ((p as u128) << 48u128) | ((b as u128) << 16u128) | (
            d as u128);
            &&& (k >> 64u128) & 0xffff_ffffu128 == a as u128
            &&& (k >> 48u128) & 0xffffu128 == p as u128
            &&& (k >> 16u128) & 0xffff_ffffu128 == b as u128
            &&& k & 0xffffu128 == d as u128
        }),
{
}

/// Distinct flows have distinct keys.
pub proof fn lemma_quad_key_injective(q1: Quad, q2: Quad)
    ensures
        quad_key(q1) == quad_key(q2) ==> q1 == q2,
{
    lemma_key_fields(q1.src_addr, q1.src_port, q1.dst_addr, q1.dst_port);
    lemma_key_fields(q2.src_addr, q2.src_port, q2.dst_addr, q2.dst_port);
}

impl Quad {
    /// The key under which the table holds this flow.
    pub fn key(&self) -> (r: u128)
        ensures
            r == quad_key(*self),
    {
        ((self.src_addr as u128) << 64u128) | ((self.src_port as u128) << 48u128) | ((
        self.dst_addr as u128) << 16u128) | (self.dst_port as u128)
    }
}

pub open spec fn quad_of(ip: Ipv4Fields, tcp: TcpFields) -> Quad {
    Quad {
        src_addr: ip.source,
        src_port: tcp.source_port,
        dst_addr: ip.destination,
        dst_port: tcp.destination_port,
    }
}

/// The flow that an inbound segment belongs to.
pub fn quad_for(ip: &Ipv4Fields, tcp: &TcpFields) -> (q: Quad)
    ensures
        q == quad_of(*ip, *tcp),
{
    Quad {
        src_addr: ip.source,
        src_port: tcp.source_port,
        dst_addr: ip.destination,
        dst_port: tcp.destination_port,
    }
}

/// The table after an inbound segment: an existing connection processes it; otherwise a
/// connection request opens a connection, and any other segment is ignored.
pub open spec fn table_step(
    m: Map<u128, Connection>,
    ip: Ipv4Fields,
    tcp: TcpFields,
    payload_len: int,
) -> Map<u128, Connection> {
    let k = quad_key(quad_of(ip, tcp));
    if m.contains_key(k) {
        m.insert(k, next_connection(m[k], tcp, payload_len))
    } else if tcp.flags.syn {
        m.insert(k, accepted_connection(ip, tcp))
    } else {
        m
    }
}

/// The headers of the segment sent in answer, if any.
pub open spec fn reply_spec(m: Map<u128, Connection>, ip: Ipv4Fields, tcp: TcpFields) -> Option<
    (Ipv4Fields, TcpFields),
> {
    let k = quad_key(quad_of(ip, tcp));
    if m.contains_key(k) {
        if rejects_ack(m[k], tcp) && !m[k].state.synchronized() {
            Some((m[k].ip, outgoing_tcp(m[k], rst_flags())))
        } else {
            None
        }
    } else if tcp.flags.syn {
        Some((accepted_connection(ip, tcp).ip, syn_ack_tcp(ip, tcp)))
    } else {
        None
    }
}

/// All connections, each under the key of its flow.
pub struct ConnectionTable {
    connections: HashMap<u128, Connection>,
}

impl View for ConnectionTable {
    type V = Map<u128, Connection>;

    closed spec fn view(&self) -> Map<u128, Connection> {
        self.connections@
    }
}

impl ConnectionTable {
    /// A table without connections.
    pub fn new() -> (t: Self)
        ensures
            t@ == Map::<u128, Connection>::empty(),
    {
        ConnectionTable { connections: HashMap::new() }
    }

    /// Number of connections.
    pub fn len(&self) -> (r: usize)
        ensures
            r == self@.len(),
    {
        self.connections.len()
    }

    /// The connection of a flow, if there is one.
    pub fn get(&self, q: &Quad) -> (r: Option<&Connection>)
        ensures
            r is Some <==> self@.contains_key(quad_key(*q)),
            r matches Some(c) ==> *c == self@[quad_key(*q)],
    {
        let k = q.key();
        self.connections.get(&k)
    }

    /// Routes one inbound segment and returns the segment to send in answer, if any.
    pub fn on_segment(&mut self, ip: &Ipv4Fields, tcp: &TcpFields, data: &[u8]) -> (r: Option<Segment>)
        ensures
            final(self)@ == table_step(old(self)@, *ip, *tcp, data@.len() as int),
            r is Some <==> reply_spec(old(self)@, *ip, *tcp) is Some,
            r matches Some(seg) ==> {
                &&& reply_spec(old(self)@, *ip, *tcp) == Some((seg.ip, seg.tcp))
                &&& seg.payload@.len() == 0
            },
    {
        let k = quad_for(ip, tcp).key();
        match self.connections.remove(&k) {
            Some(c) => {
                let mut c = c;
                let outcome = c.on_packet(ip, tcp, data);
                self.connections.insert(k, c);
                proof {
                    assert(final(self)@ =~= table_step(old(self)@, *ip, *tcp, data@.len() as int));
                }
                match outcome {
                    Outcome::Reset(seg) => Some(seg),
                    _ => None,
                }
            },
            None => {
                match Connection::accept(ip, tcp, data) {
                    Some((c, seg)) => {
                        self.connections.insert(k, c);
                        Some(seg)
                    },
                    None => None,
                }
            },
        }
    }

    /// Reads one inbound frame, routes its segment, and returns the datagram to send in
    /// answer, if any; a frame that is not a readable TCP segment leaves the table as it was.
    pub fn on_frame(&mut self, frame: &[u8]) -> (r: Result<Option<Vec<u8>>, FrameError>)
        ensures
            match decode_spec(frame@) {
                Err(e) => r == Err::<Option<Vec<u8>>, FrameError>(e) && final(self)@ == old(self)@,
                Ok(v) => {
                    &&& final(self)@ == table_step(
                        old(self)@,
                        v.ip,
                        v.tcp,
                        frame@.len() - v.payload_start,
                    )
                    &&& r matches Ok(o) && (o is Some <==> reply_spec(old(self)@, v.ip, v.tcp) is Some)
                    &&& r matches Ok(Some(bytes)) ==> reply_spec(old(self)@, v.ip, v.tcp) matches Some(h)
                        && bytes@ == encoded_spec(h.0, h.1, Seq::empty())
                },
            },
    {
        let v = match decode_frame(frame) {
            Ok(v) => v,
            Err(e) => {
                return Err(e);
            },
        };
        let data = vstd::slice::slice_subrange(frame, v.payload_start, frame.len());
        match self.on_segment(&v.ip, &v.tcp, data) {
            Some(seg) => {
                let bytes = seg.to_bytes();
                proof {
                    assert(seg.payload@ =~= Seq::<u8>::empty());
                }
                Ok(Some(bytes))
            },
            None => Ok(None),
        }
    }
}

/// Connection requests of two different flows without connections open two connections,
/// each under its own flow's key.
pub proof fn lemma_distinct_flows_open_distinct_connections(
    m: Map<u128, Connection>,
    ip1: Ipv4Fields,
    tcp1: TcpFields,
    len1: int,
    ip2: Ipv4Fields,
    tcp2: TcpFields,
    len2: int,
)
    requires
        quad_of(ip1, tcp1) != quad_of(ip2, tcp2),
        !m.contains_key(quad_key(quad_of(ip1, tcp1))),
        !m.contains_key(quad_key(quad_of(ip2, tcp2))),
        tcp1.flags.syn,
        tcp2.flags.syn,
    ensures
        ({
            let after = table_step(table_step(m, ip1, tcp1, len1), ip2, tcp2, len2);
            &&& after.contains_key(quad_key(quad_of(ip1, tcp1)))
            &&& after[quad_key(quad_of(ip1, tcp1))] == accepted_connection(ip1, tcp1)
            &&& after.contains_key(quad_key(quad_of(ip2, tcp2)))
            &&& after[quad_key(quad_of(ip2, tcp2))] == accepted_connection(ip2, tcp2)
            &&& quad_key(quad_of(ip1, tcp1)) != quad_key(quad_of(ip2, tcp2))
        }),
{
    lemma_quad_key_injective(quad_of(ip1, tcp1), quad_of(ip2, tcp2));
}

/// A segment of a flow that has a connection goes to that connection: even a connection
/// request does not replace it, and no other flow gains or loses a connection.
pub proof fn lemma_existing_flow_is_not_reopened(
    m: Map<u128, Connection>,
    ip: Ipv4Fields,
    tcp: TcpFields,
    payload_len: int,
)
    requires
        m.contains_key(quad_key(quad_of(ip, tcp))),
    ensures
        table_step(m, ip, tcp, payload_len).dom() == m.dom(),
        table_step(m, ip, tcp, payload_len)[quad_key(quad_of(ip, tcp))] == next_connection(
            m[quad_key(quad_of(ip, tcp))],
            tcp,
            payload_len,
        ),
{
    assert(table_step(m, ip, tcp, payload_len).dom() =~= m.dom());
}

} // verus!
