//! One TCP connection: passive open, segment acceptance and the handshake.

use vstd::prelude::*;
use crate::header::{Flags, Ipv4Fields, Segment, TcpFields, MAX_PAYLOAD, PROTOCOL_TCP};
use crate::seq_space::{is_between_wrapped, lemma_ring_offset, wrapped_between, RecvSequenceSpace, SendSequenceSpace};

verus! {

/// Initial send sequence number of every connection.
pub const ISS: u32 = 0;

/// Window advertised in every segment sent.
pub const LOCAL_WINDOW: u16 = 10;

/// Time-to-live of every datagram sent.
pub const TTL: u8 = 64;

/// Protocol state of a connection.
#[derive(Clone, Copy, Debug, PartialEq, Eq)]
pub enum State {
    Closed,
    Listen,
    SynRcvd,
    Estab,
}

impl State {
    pub open spec fn synchronized(self) -> bool {
        self is Estab
    }

    /// Whether the three-way handshake has completed.
    pub fn is_synchronized(&self) -> (r: bool)
        ensures
            r == self.synchronized(),
    {
        match *self {
            State::Estab => true,
            _ => false,
        }
    }
}

/// What processing one inbound segment came to.
#[derive(Clone, Debug)]
pub enum Outcome {
    /// the segment was dropped and the connection is unchanged
    Dropped,
    /// an unacceptable acknowledgment before synchronization: this reset is to be sent
    Reset(Segment),
    /// the handshake completed
    Established,
    /// an acceptable segment on an established connection; nothing more is done with it
    Accepted,
    /// an acceptable segment in a state whose processing this endpoint does not provide
    Unsupported,
}

/// One TCP connection.
#[derive(Clone, Copy, Debug)]
pub struct Connection {
    pub state: State,
    pub send: SendSequenceSpace,
    pub recv: RecvSequenceSpace,
    /// IPv4 header template, addressed from this end
    pub ip: Ipv4Fields,
    /// TCP header template, addressed from this end; numbers and flags are set per segment
    pub tcp: TcpFields,
}

pub open spec fn no_flags() -> Flags {
    Flags { syn: false, ack: false, fin: false, rst: false }
}

/// Number of sequence numbers a segment occupies.
pub open spec fn seg_len(payload_len: int, flags: Flags) -> int {
    payload_len + (if flags.syn { 1int } else { 0 }) + (if flags.fin { 1int } else { 0 })
}

/// The acknowledgment number lies in `(una, nxt + 1)`, i.e. acknowledges something sent.
pub open spec fn ack_acceptable(send: SendSequenceSpace, ackn: u32) -> bool {
    wrapped_between(send.una, ackn, send.nxt.wrapping_add(1))
}

/// `s` lies in `[nxt, nxt + wnd)` of the receive window.
pub open spec fn in_receive_window(recv: RecvSequenceSpace, s: u32) -> bool {
    wrapped_between(recv.nxt.wrapping_sub(1), s, recv.nxt.wrapping_add(recv.wnd as u32))
}

/// Sequence number of the last octet of a segment of length `len > 0`.
pub open spec fn last_seq(seqn: u32, len: int) -> u32 {
    ((seqn + len - 1) % 0x1_0000_0000) as u32
}

/// The receive acceptability test of RFC 793.
pub open spec fn segment_acceptable(recv: RecvSequenceSpace, seqn: u32, len: int) -> bool {
    if len == 0 {
        if recv.wnd == 0 {
            seqn == recv.nxt
        } else {
            in_receive_window(recv, seqn)
        }
    } else {
        recv.wnd != 0 && (in_receive_window(recv, seqn) || in_receive_window(
            recv,
            last_seq(seqn, len),
        ))
    }
}

/// The segment carries an acknowledgment that acknowledges nothing sent.
pub open spec fn rejects_ack(c: Connection, tcp: TcpFields) -> bool {
    tcp.flags.ack && !ack_acceptable(c.send, tcp.acknowledgment_number)
}

/// The segment passes the acknowledgment check and the acceptability test.
pub open spec fn passes(c: Connection, tcp: TcpFields, payload_len: int) -> bool {
    !rejects_ack(c, tcp) && segment_acceptable(
        c.recv,
        tcp.sequence_number,
        seg_len(payload_len, tcp.flags),
    )
}

/// The connection after an inbound segment.
pub open spec fn next_connection(c: Connection, tcp: TcpFields, payload_len: int) -> Connection {
    if passes(c, tcp, payload_len) && c.state is SynRcvd && tcp.flags.ack {
        Connection { state: State::Estab, ..c }
    } else {
        c
    }
}

/// The header of the next segment sent with these flags.
pub open spec fn outgoing_tcp(c: Connection, flags: Flags) -> TcpFields {
    TcpFields {
        sequence_number: c.send.nxt,
        acknowledgment_number: c.recv.nxt,
        flags,
        ..c.tcp
    }
}

/// Flags of the reset sent for an unacceptable acknowledgment.
pub open spec fn rst_flags() -> Flags {
    Flags { syn: false, ack: true, fin: false, rst: true }
}

/// Flags of the answer to a connection request.
pub open spec fn syn_ack_flags() -> Flags {
    Flags { syn: true, ack: true, fin: false, rst: false }
}

/// The connection that a connection request opens, after its SYN-ACK is sent.
pub open spec fn accepted_connection(ip: Ipv4Fields, tcp: TcpFields) -> Connection {
    Connection {
        state: State::SynRcvd,
        send: SendSequenceSpace {
            una: ISS,
            nxt: ISS.wrapping_add(1),
            wnd: LOCAL_WINDOW,
            up: false,
            wl1: 0,
            wl2: 0,
            iss: ISS,
        },
        recv: RecvSequenceSpace {
            nxt: tcp.sequence_number.wrapping_add(1),
            wnd: tcp.window_size,
            up: false,
            irs: tcp.sequence_number,
        },
        ip: Ipv4Fields {
            source: ip.destination,
            destination: ip.source,
            protocol: PROTOCOL_TCP,
            ttl: TTL,
        },
        tcp: TcpFields {
            source_port: tcp.destination_port,
            destination_port: tcp.source_port,
            sequence_number: ISS,
            acknowledgment_number: 0,
            window_size: LOCAL_WINDOW,
            flags: no_flags(),
        },
    }
}

/// The SYN-ACK that answers a connection request.
pub open spec fn syn_ack_tcp(ip: Ipv4Fields, tcp: TcpFields) -> TcpFields {
    TcpFields {
        sequence_number: ISS,
        acknowledgment_number: tcp.sequence_number.wrapping_add(1),
        flags: syn_ack_flags(),
        ..accepted_connection(ip, tcp).tcp
    }
}

/// Sequence number of the last octet of a nonempty segment.
fn last_octet(seqn: u32, data_len: usize, flags: Flags) -> (r: u32)
    requires
        seg_len(data_len as int, flags) > 0,
    ensures
        r == last_seq(seqn, seg_len(data_len as int, flags)),
{
    let extra: u64 = (if flags.syn { 1u64 } else { 0u64 }) + (if flags.fin { 1u64 } else { 0u64 });
    let low: u64 = data_len as u64 % 0x1_0000_0000;
    let t: u64 = (seqn as u64 + extra + 0xffff_ffff + low) % 0x1_0000_0000;
    proof {
        let n: int = 0x1_0000_0000;
        let x: int = seqn + extra + 0xffff_ffff;
        let y: int = data_len as int;
        vstd::arithmetic::div_mod::lemma_add_mod_noop(x, y % n, n);
        vstd::arithmetic::div_mod::lemma_mod_twice(y, n);
        vstd::arithmetic::div_mod::lemma_add_mod_noop(x, y, n);
        vstd::arithmetic::div_mod::lemma_mod_add_multiples_vanish(
            seqn + seg_len(data_len as int, flags) - 1,
            n,
        );
    }
    t as u32
}

/// The receive acceptability test on the current receive window.
fn is_acceptable(recv: &RecvSequenceSpace, seqn: u32, data_len: usize, flags: Flags) -> (r: bool)
    ensures
        r == segment_acceptable(*recv, seqn, seg_len(data_len as int, flags)),
{
    let wend = recv.nxt.wrapping_add(recv.wnd as u32);
    let before = recv.nxt.wrapping_sub(1);
    if data_len == 0 && !flags.syn && !flags.fin {
        if recv.wnd == 0 {
            seqn == recv.nxt
        } else {
            is_between_wrapped(before, seqn, wend)
        }
    } else {
        let last = last_octet(seqn, data_len, flags);
        recv.wnd != 0 && (is_between_wrapped(before, seqn, wend) || is_between_wrapped(before, last, wend))
    }
}

impl Connection {
    /// Opens a connection for an inbound connection request and builds its SYN-ACK;
    /// a segment without SYN opens none.
    pub fn accept(ip: &Ipv4Fields, tcp: &TcpFields, _data: &[u8]) -> (r: Option<(Connection, Segment)>)
        ensures
            r is Some <==> tcp.flags.syn,
            r matches Some(v) ==> {
                &&& v.0 == accepted_connection(*ip, *tcp)
                &&& v.1.ip == v.0.ip
                &&& v.1.tcp == syn_ack_tcp(*ip, *tcp)
                &&& v.1.payload@.len() == 0
            },
    {
        if !tcp.flags.syn {
            return None;
        }
        let mut c = Connection {
            state: State::SynRcvd,
            send: SendSequenceSpace {
                una: ISS,
                nxt: ISS,
                wnd: LOCAL_WINDOW,
                up: false,
                wl1: 0,
                wl2: 0,
                iss: ISS,
            },
            recv: RecvSequenceSpace {
                nxt: tcp.sequence_number.wrapping_add(1),
                wnd: tcp.window_size,
                up: false,
                irs: tcp.sequence_number,
            },
            ip: Ipv4Fields {
                source: ip.destination,
                destination: ip.source,
                protocol: PROTOCOL_TCP,
                ttl: TTL,
            },
            tcp: TcpFields {
                source_port: tcp.destination_port,
                destination_port: tcp.source_port,
                sequence_number: ISS,
                acknowledgment_number: 0,
                window_size: LOCAL_WINDOW,
                flags: Flags { syn: false, ack: false, fin: false, rst: false },
            },
        };
        let empty: [u8; 0] = [];
        let seg = c.write(Flags { syn: true, ack: true, fin: false, rst: false }, &empty);
        Some((c, seg))
    }

    /// Builds the next segment with these flags and as much of `payload` as fits, and
    /// advances `send.nxt` past what it occupies.
    pub fn write(&mut self, flags: Flags, payload: &[u8]) -> (seg: Segment)
        ensures
            seg.ip == old(self).ip,
            seg.tcp == outgoing_tcp(*old(self), flags),
            seg.payload@ == payload@.subrange(
                0,
                if payload@.len() <= MAX_PAYLOAD { payload@.len() as int } else { MAX_PAYLOAD as int },
            ),
            *final(self) == (Connection {
                send: SendSequenceSpace {
                    nxt: ((old(self).send.nxt + seg_len(seg.payload@.len() as int, flags))
                        % 0x1_0000_0000) as u32,
                    ..old(self).send
                },
                ..*old(self)
            }),
    {
        let n: usize = if payload.len() <= MAX_PAYLOAD { payload.len() } else { MAX_PAYLOAD };
        let taken = vstd::slice::slice_subrange(payload, 0, n);
        let seg = Segment {
            ip: self.ip,
            tcp: TcpFields {
                sequence_number: self.send.nxt,
                acknowledgment_number: self.recv.nxt,
                flags,
                ..self.tcp
            },
            payload: vstd::slice::slice_to_vec(taken),
        };
        let mut occupied: u32 = n as u32;
        if flags.syn {
            occupied = occupied + 1;
        }
        if flags.fin {
            occupied = occupied + 1;
        }
        self.send.nxt = self.send.nxt.wrapping_add(occupied);
        seg
    }

    /// Builds a reset for the peer.
    fn send_rst(&mut self) -> (seg: Segment)
        ensures
            seg.ip == old(self).ip,
            seg.tcp == outgoing_tcp(*old(self), rst_flags()),
            seg.payload@.len() == 0,
            *final(self) == *old(self),
    {
        let empty: [u8; 0] = [];
        let seg = self.write(Flags { syn: false, ack: true, fin: false, rst: true }, &empty);
        proof {
            vstd::arithmetic::div_mod::lemma_small_mod(old(self).send.nxt as nat, 0x1_0000_0000);
        }
        seg
    }

    /// Processes one inbound segment of this connection.
    pub fn on_packet(&mut self, _ip: &Ipv4Fields, tcp: &TcpFields, data: &[u8]) -> (r: Outcome)
        ensures
            *final(self) == next_connection(*old(self), *tcp, data@.len() as int),
            r is Reset <==> rejects_ack(*old(self), *tcp) && !old(self).state.synchronized(),
            r matches Outcome::Reset(seg) ==> {
                &&& seg.ip == old(self).ip
                &&& seg.tcp == outgoing_tcp(*old(self), rst_flags())
                &&& seg.payload@.len() == 0
            },
            r is Established <==> passes(*old(self), *tcp, data@.len() as int) && old(
                self,
            ).state is SynRcvd && tcp.flags.ack,
            r is Accepted <==> passes(*old(self), *tcp, data@.len() as int) && old(
                self,
            ).state is Estab,
            r is Unsupported <==> passes(*old(self), *tcp, data@.len() as int) && (old(
                self,
            ).state is Closed || old(self).state is Listen),
    {
        let ackn = tcp.acknowledgment_number;
        if tcp.flags.ack && !is_between_wrapped(self.send.una, ackn, self.send.nxt.wrapping_add(1)) {
            if !self.state.is_synchronized() {
                let seg = self.send_rst();
                return Outcome::Reset(seg);
            }
            return Outcome::Dropped;
        }
        if !is_acceptable(&self.recv, tcp.sequence_number, data.len(), tcp.flags) {
            return Outcome::Dropped;
        }
        match self.state {
            State::SynRcvd => {
                if !tcp.flags.ack {
                    return Outcome::Dropped;
                }
                self.state = State::Estab;
                Outcome::Established
            },
            State::Estab => Outcome::Accepted,
            State::Closed | State::Listen => Outcome::Unsupported,
        }
    }
}

/// Before synchronization, a segment whose acknowledgment acknowledges nothing that was
/// sent is answered by a reset, and the connection stays as it was.
pub proof fn lemma_bad_ack_before_sync_resets(c: Connection, tcp: TcpFields, payload_len: int)
    requires
        c.state is SynRcvd,
        tcp.flags.ack,
        !ack_acceptable(c.send, tcp.acknowledgment_number),
    ensures
        rejects_ack(c, tcp) && !c.state.synchronized(),
        next_connection(c, tcp, payload_len) == c,
{
}

/// A segment that occupies no sequence numbers and starts at `recv.nxt` is acceptable
/// whatever the window; one that starts at `recv.nxt + wnd` is not, for a nonzero window.
pub proof fn lemma_empty_segment_at_window_edges(recv: RecvSequenceSpace)
    ensures
        segment_acceptable(recv, recv.nxt, 0),
        recv.wnd > 0 ==> !segment_acceptable(recv, recv.nxt.wrapping_add(recv.wnd as u32), 0),
{
    let before = recv.nxt.wrapping_sub(1);
    let wend = recv.nxt.wrapping_add(recv.wnd as u32);
    lemma_ring_offset(before, recv.nxt);
    lemma_ring_offset(before, wend);
}

/// A segment that fails the acceptability test leaves the connection as it was.
pub proof fn lemma_unacceptable_segment_changes_nothing(
    c: Connection,
    tcp: TcpFields,
    payload_len: int,
)
    requires
        !segment_acceptable(c.recv, tcp.sequence_number, seg_len(payload_len, tcp.flags)),
    ensures
        next_connection(c, tcp, payload_len) == c,
{
}

/// Delivering a segment a second time changes nothing more than the first delivery did,
/// and draws a reset only if the first delivery drew one.
pub proof fn lemma_redelivery_is_idempotent(c: Connection, tcp: TcpFields, payload_len: int)
    ensures
        next_connection(next_connection(c, tcp, payload_len), tcp, payload_len)
            == next_connection(c, tcp, payload_len),
        rejects_ack(next_connection(c, tcp, payload_len), tcp) == rejects_ack(c, tcp),
{
}

} // verus!
