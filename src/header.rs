//! IPv4 and TCP header fields as plain values, read from and written to bytes
//! through etherparse.

use vstd::prelude::*;

verus! {

/// IP protocol number of TCP.
pub const PROTOCOL_TCP: u8 = 6;

/// Length of an IPv4 header and of a TCP header without options.
pub const HEADER_LEN: usize = 20;

/// Largest datagram that is sent.
pub const MTU: usize = 1500;

/// Largest payload that fits in one datagram next to both headers.
pub const MAX_PAYLOAD: usize = 1460;

/// The four TCP control bits that this endpoint reads and sets.
#[derive(Clone, Copy, Debug, PartialEq, Eq)]
pub struct Flags {
    pub syn: bool,
    pub ack: bool,
    pub fin: bool,
    pub rst: bool,
}

/// The IPv4 header fields that the endpoint reads or writes; addresses are big-endian integers.
#[derive(Clone, Copy, Debug, PartialEq, Eq)]
pub struct Ipv4Fields {
    pub source: u32,
    pub destination: u32,
    pub protocol: u8,
    pub ttl: u8,
}

/// The TCP header fields that the endpoint reads or writes.
#[derive(Clone, Copy, Debug, PartialEq, Eq)]
pub struct TcpFields {
    pub source_port: u16,
    pub destination_port: u16,
    pub sequence_number: u32,
    pub acknowledgment_number: u32,
    pub window_size: u16,
    pub flags: Flags,
}

/// One outbound segment: its headers and its payload.
#[derive(Clone, Debug)]
pub struct Segment {
    pub ip: Ipv4Fields,
    pub tcp: TcpFields,
    pub payload: Vec<u8>,
}

/// Why an inbound frame is not handed to a connection.
#[derive(Clone, Copy, Debug, PartialEq, Eq)]
pub enum FrameError {
    /// the IPv4 header could not be read
    MalformedIp,
    /// the datagram carries another protocol than TCP
    NotTcp,
    /// the TCP header could not be read
    MalformedTcp,
}

/// Big-endian 16-bit value at `i`.
pub open spec fn be16(s: Seq<u8>, i: int) -> u16 {
    (s[i] as int * 0x100 + s[i + 1] as int) as u16
}

/// Big-endian 32-bit value at `i`.
pub open spec fn be32(s: Seq<u8>, i: int) -> u32 {
    (s[i] as int * 0x100_0000 + s[i + 1] as int * 0x1_0000 + s[i + 2] as int * 0x100
        + s[i + 3] as int) as u32
}

/// EtherType of IPv4, as a tunnel frame's packet-information prefix declares it.
pub const ETHERTYPE_IPV4: u16 = 0x0800;

/// The IPv4 datagram in a frame that starts with a four-byte packet-information prefix
/// (two bytes of flags, then the protocol); none where the prefix declares another protocol.
pub fn strip_packet_info(frame: &[u8]) -> (r: Option<&[u8]>)
    ensures
        r is Some <==> frame@.len() >= 4 && be16(frame@, 2) == ETHERTYPE_IPV4,
        r matches Some(d) ==> d@ == frame@.subrange(4, frame@.len() as int),
{
    if frame.len() < 4 {
        return None;
    }
    let proto: u16 = frame[2] as u16 * 256 + frame[3] as u16;
    if proto != ETHERTYPE_IPV4 {
        return None;
    }
    Some(vstd::slice::slice_subrange(frame, 4, frame.len()))
}

/// Length in bytes that an IPv4 header declares for itself.
pub open spec fn ipv4_header_len(s: Seq<u8>) -> int {
    (s[0] % 16) as int * 4
}

/// The bytes start with a readable IPv4 header.
pub open spec fn ipv4_header_ok(s: Seq<u8>) -> bool {
    &&& s.len() >= 20
    &&& s[0] / 16 == 4
    &&& s[0] % 16 >= 5
    &&& s.len() >= ipv4_header_len(s)
    &&& be16(s, 2) >= ipv4_header_len(s)
}

pub open spec fn ipv4_fields_of(s: Seq<u8>) -> Ipv4Fields {
    Ipv4Fields { source: be32(s, 12), destination: be32(s, 16), protocol: s[9], ttl: s[8] }
}

/// Length in bytes that a TCP header declares for itself.
pub open spec fn tcp_header_len(s: Seq<u8>) -> int {
    (s[12] / 16) as int * 4
}

/// The bytes start with a readable TCP header.
pub open spec fn tcp_header_ok(s: Seq<u8>) -> bool {
    &&& s.len() >= 20
    &&& s[12] / 16 >= 5
    &&& s.len() >= tcp_header_len(s)
}

pub open spec fn tcp_fields_of(s: Seq<u8>) -> TcpFields {
    TcpFields {
        source_port: be16(s, 0),
        destination_port: be16(s, 2),
        sequence_number: be32(s, 4),
        acknowledgment_number: be32(s, 8),
        window_size: be16(s, 14),
        flags: Flags {
            fin: s[13] % 2 == 1,
            syn: (s[13] / 2) % 2 == 1,
            rst: (s[13] / 4) % 2 == 1,
            ack: (s[13] / 16) % 2 == 1,
        },
    }
}

#[verifier::external_type_specification]
#[verifier::external_body]
pub struct ExReadError(etherparse::ReadError);

/// Relies on etherparse's `Ipv4HeaderSlice::from_slice`, which accepts exactly the
/// headers that `ipv4_header_ok` describes, and on its readers of the address,
/// protocol and time-to-live fields.
#[verifier::external_body]
fn read_ipv4(frame: &[u8]) -> (r: Result<(Ipv4Fields, usize), etherparse::ReadError>)
    ensures
        r is Ok <==> ipv4_header_ok(frame@),
        r matches Ok(v) ==> v.0 == ipv4_fields_of(frame@) && v.1 == ipv4_header_len(frame@),
{
    let h = etherparse::Ipv4HeaderSlice::from_slice(frame)?;
    let f = Ipv4Fields {
        source: u32::from_be_bytes(h.source()),
        destination: u32::from_be_bytes(h.destination()),
        protocol: h.protocol(),
        ttl: h.ttl(),
    };
    Ok((f, h.slice().len()))
}

/// Relies on etherparse's `TcpHeaderSlice::from_slice`, which accepts exactly the
/// headers that `tcp_header_ok` describes, and on its readers of ports, numbers,
/// window and flags.
#[verifier::external_body]
fn read_tcp(bytes: &[u8]) -> (r: Result<(TcpFields, usize), etherparse::ReadError>)
    ensures
        r is Ok <==> tcp_header_ok(bytes@),
        r matches Ok(v) ==> v.0 == tcp_fields_of(bytes@) && v.1 == tcp_header_len(bytes@),
{
    let h = etherparse::TcpHeaderSlice::from_slice(bytes)?;
    let flags = Flags { syn: h.syn(), ack: h.ack(), fin: h.fin(), rst: h.rst() };
    let f = TcpFields {
        source_port: h.source_port(),
        destination_port: h.destination_port(),
        sequence_number: h.sequence_number(),
        acknowledgment_number: h.acknowledgment_number(),
        window_size: h.window_size(),
        flags,
    };
    Ok((f, h.slice().len()))
}

/// An inbound TCP segment: its headers and where its payload starts in the frame.
#[derive(Clone, Copy, Debug, PartialEq, Eq)]
pub struct Inbound {
    pub ip: Ipv4Fields,
    pub tcp: TcpFields,
    pub payload_start: usize,
}

/// What reading a frame gives: the error, or the headers and the payload's offset.
pub open spec fn decode_spec(s: Seq<u8>) -> Result<Inbound, FrameError> {
    if !ipv4_header_ok(s) {
        Err(FrameError::MalformedIp)
    } else if ipv4_fields_of(s).protocol != PROTOCOL_TCP {
        Err(FrameError::NotTcp)
    } else {
        let rest = s.subrange(ipv4_header_len(s), s.len() as int);
        if !tcp_header_ok(rest) {
            Err(FrameError::MalformedTcp)
        } else {
            Ok(
                Inbound {
                    ip: ipv4_fields_of(s),
                    tcp: tcp_fields_of(rest),
                    payload_start: (ipv4_header_len(s) + tcp_header_len(rest)) as usize,
                },
            )
        }
    }
}

/// Reads the IPv4 and TCP headers at the start of a frame.
pub fn decode_frame(frame: &[u8]) -> (r: Result<Inbound, FrameError>)
    ensures
        r == decode_spec(frame@),
        r matches Ok(v) ==> v.payload_start <= frame@.len(),
{
    let (ip, ip_len) = match read_ipv4(frame) {
        Ok(v) => v,
        Err(_) => {
            return Err(FrameError::MalformedIp);
        },
    };
    if ip.protocol != PROTOCOL_TCP {
        return Err(FrameError::NotTcp);
    }
    let rest = vstd::slice::slice_subrange(frame, ip_len, frame.len());
    let (tcp, tcp_len) = match read_tcp(rest) {
        Ok(v) => v,
        Err(_) => {
            return Err(FrameError::MalformedTcp);
        },
    };
    Ok(Inbound { ip, tcp, payload_start: ip_len + tcp_len })
}

/// The twenty bytes of an IPv4 header that etherparse writes for these fields.
pub uninterp spec fn ipv4_header_bytes_of(ip: Ipv4Fields, payload_len: u16) -> Seq<u8>;

/// Relies on etherparse's `Ipv4Header::write` for a header made by `Ipv4Header::new`:
/// twenty bytes without options, with the header checksum computed; the write fails
/// only on a payload length above what the total length field can hold.
#[verifier::external_body]
fn ipv4_header_bytes(ip: &Ipv4Fields, payload_len: u16) -> (r: Vec<u8>)
    requires
        payload_len <= 0xffff - 20,
    ensures
        r@ == ipv4_header_bytes_of(*ip, payload_len),
        r@.len() == 20,
{
    let source = ip.source.to_be_bytes();
    let destination = ip.destination.to_be_bytes();
    let h = etherparse::Ipv4Header::new(payload_len, ip.ttl, ip.protocol, source, destination);
    let mut out: Vec<u8> = Vec::new();
    let _ = h.write(&mut out);
    out
}

/// The TCP checksum that etherparse computes over the pseudo-header, header and payload.
pub uninterp spec fn tcp_checksum_of(ip: Ipv4Fields, tcp: TcpFields, payload: Seq<u8>) -> u16;

/// Relies on etherparse's `TcpHeader::calc_checksum_ipv4_raw`, which fails only when
/// the header and payload together exceed what a 16-bit length holds.
#[verifier::external_body]
fn tcp_checksum(ip: &Ipv4Fields, tcp: &TcpFields, payload: &[u8]) -> (r: u16)
    requires
        20 + payload@.len() <= 0xffff,
    ensures
        r == tcp_checksum_of(*ip, *tcp, payload@),
{
    let mut h = etherparse::TcpHeader::new(tcp.source_port, tcp.destination_port, tcp.sequence_number, tcp.window_size);
    h.acknowledgment_number = tcp.acknowledgment_number;
    h.syn = tcp.flags.syn;
    h.ack = tcp.flags.ack;
    h.fin = tcp.flags.fin;
    h.rst = tcp.flags.rst;
    let r = h.calc_checksum_ipv4_raw(ip.source.to_be_bytes(), ip.destination.to_be_bytes(), payload);
    r.unwrap_or(0)
}

/// The twenty bytes of a TCP header that etherparse writes for these fields.
pub uninterp spec fn tcp_header_bytes_of(tcp: TcpFields, checksum: u16) -> Seq<u8>;

/// Relies on etherparse's `TcpHeader::write` for a header made by `TcpHeader::new`:
/// twenty bytes without options, carrying the checksum as given.
#[verifier::external_body]
fn tcp_header_bytes(tcp: &TcpFields, checksum: u16) -> (r: Vec<u8>)
    ensures
        r@ == tcp_header_bytes_of(*tcp, checksum),
        r@.len() == 20,
{
    let mut h = etherparse::TcpHeader::new(tcp.source_port, tcp.destination_port, tcp.sequence_number, tcp.window_size);
    h.acknowledgment_number = tcp.acknowledgment_number;
    h.syn = tcp.flags.syn;
    h.ack = tcp.flags.ack;
    h.fin = tcp.flags.fin;
    h.rst = tcp.flags.rst;
    h.checksum = checksum;
    let mut out: Vec<u8> = Vec::new();
    let _ = h.write(&mut out);
    out
}

/// The datagram that carries a segment: IPv4 header, TCP header with its checksum, payload.
pub open spec fn encoded_spec(ip: Ipv4Fields, tcp: TcpFields, payload: Seq<u8>) -> Seq<u8> {
    ipv4_header_bytes_of(ip, (20 + payload.len()) as u16) + tcp_header_bytes_of(
        tcp,
        tcp_checksum_of(ip, tcp, payload),
    ) + payload
}

impl Segment {
    /// The bytes of the datagram that carries this segment.
    pub fn to_bytes(&self) -> (r: Vec<u8>)
        requires
            self.payload@.len() <= MAX_PAYLOAD,
        ensures
            r@ == encoded_spec(self.ip, self.tcp, self.payload@),
            r@.len() == 40 + self.payload@.len(),
    {
        let payload_len = (HEADER_LEN + self.payload.len()) as u16;
        let mut out = ipv4_header_bytes(&self.ip, payload_len);
        let checksum = tcp_checksum(&self.ip, &self.tcp, self.payload.as_slice());
        let tcp_bytes = tcp_header_bytes(&self.tcp, checksum);
        out.extend_from_slice(tcp_bytes.as_slice());
        out.extend_from_slice(self.payload.as_slice());
        assert(out@ =~= encoded_spec(self.ip, self.tcp, self.payload@));
        out
    }
}

} // verus!
