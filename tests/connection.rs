use trust_tcp::header::{decode_frame, Flags, FrameError, Ipv4Fields, Segment, TcpFields};
use trust_tcp::seq_space::{is_between_wrapped, RecvSequenceSpace};
use trust_tcp::table::{ConnectionTable, Quad};
use trust_tcp::tcp::{Connection, Outcome, State};

const PEER: u32 = 0xc0a8_0001;
const LOCAL: u32 = 0xc0a8_0002;

fn flags(syn: bool, ack: bool, fin: bool, rst: bool) -> Flags {
    Flags { syn, ack, fin, rst }
}

fn inbound_ip(source: u32) -> Ipv4Fields {
    Ipv4Fields { source, destination: LOCAL, protocol: 6, ttl: 64 }
}

fn inbound_tcp(source_port: u16, seq: u32, ack: u32, f: Flags) -> TcpFields {
    TcpFields {
        source_port,
        destination_port: 80,
        sequence_number: seq,
        acknowledgment_number: ack,
        window_size: 1024,
        flags: f,
    }
}

fn opened(seq: u32) -> (Connection, Segment) {
    let ip = inbound_ip(PEER);
    let tcp = inbound_tcp(4000, seq, 0, flags(true, false, false, false));
    Connection::accept(&ip, &tcp, &[]).expect("a SYN opens a connection")
}

#[test]
fn between_plain_range() {
    assert!(is_between_wrapped(10, 15, 20));
    assert!(!is_between_wrapped(10, 20, 20));
    assert!(!is_between_wrapped(10, 25, 20));
    assert!(!is_between_wrapped(10, 5, 20));
}

#[test]
fn between_excludes_start() {
    assert!(!is_between_wrapped(10, 10, 20));
    assert!(!is_between_wrapped(u32::MAX, u32::MAX, 3));
}

#[test]
fn between_across_wraparound() {
    assert!(is_between_wrapped(u32::MAX - 2, u32::MAX, 5));
    assert!(is_between_wrapped(u32::MAX - 2, 0, 5));
    assert!(is_between_wrapped(u32::MAX - 2, 4, 5));
    assert!(!is_between_wrapped(u32::MAX - 2, 5, 5));
    assert!(!is_between_wrapped(u32::MAX - 2, 6, 5));
}

#[test]
fn between_end_before_start() {
    assert!(is_between_wrapped(100, 200, 50));
    assert!(is_between_wrapped(100, 10, 50));
    assert!(!is_between_wrapped(100, 50, 50));
    assert!(!is_between_wrapped(100, 70, 50));
}

#[test]
fn between_empty_interval() {
    assert!(!is_between_wrapped(7, 8, 7));
    assert!(!is_between_wrapped(7, 6, 7));
}

#[test]
fn between_matches_rebased_containment() {
    let samples: [u32; 6] = [0, 1, 1000, 0x8000_0000, u32::MAX - 1, u32::MAX];
    for &start in samples.iter() {
        for &end in samples.iter() {
            if start == end {
                continue;
            }
            for &x in samples.iter() {
                let expected = x != start && x.wrapping_sub(start) < end.wrapping_sub(start);
                assert_eq!(is_between_wrapped(start, x, end), expected);
            }
        }
    }
}

#[test]
fn handshake_syn_opens_syn_rcvd() {
    let (c, seg) = opened(1000);
    assert_eq!(c.state, State::SynRcvd);
    assert_eq!(c.recv.irs, 1000);
    assert_eq!(c.recv.nxt, 1001);
    assert_eq!(c.send.iss, 0);
    assert_eq!(c.send.una, 0);
    assert_eq!(c.send.nxt, 1);
    assert_eq!(c.send.wnd, 10);
    assert!(seg.tcp.flags.syn && seg.tcp.flags.ack);
    assert!(!seg.tcp.flags.rst && !seg.tcp.flags.fin);
    assert_eq!(seg.tcp.acknowledgment_number, 1001);
    assert_eq!(seg.tcp.sequence_number, 0);
    assert_eq!(seg.tcp.source_port, 80);
    assert_eq!(seg.tcp.destination_port, 4000);
    assert_eq!(seg.ip.source, LOCAL);
    assert_eq!(seg.ip.destination, PEER);
    assert!(seg.payload.is_empty());
}

#[test]
fn accept_declines_without_syn() {
    let ip = inbound_ip(PEER);
    let tcp = inbound_tcp(4000, 1000, 0, flags(false, true, false, false));
    assert!(Connection::accept(&ip, &tcp, &[]).is_none());
}

#[test]
fn accept_wraps_peer_sequence() {
    let (c, seg) = opened(u32::MAX);
    assert_eq!(c.recv.irs, u32::MAX);
    assert_eq!(c.recv.nxt, 0);
    assert_eq!(seg.tcp.acknowledgment_number, 0);
}

#[test]
fn ack_completes_handshake() {
    let (mut c, _) = opened(1000);
    let tcp = inbound_tcp(4000, 1001, c.send.nxt, flags(false, true, false, false));
    let out = c.on_packet(&inbound_ip(PEER), &tcp, &[]);
    assert!(matches!(out, Outcome::Established));
    assert_eq!(c.state, State::Estab);
}

#[test]
fn invalid_ack_before_sync_sends_rst() {
    let (mut c, _) = opened(1000);
    let before = c.send;
    let tcp = inbound_tcp(4000, 1001, 5, flags(false, true, false, false));
    let out = c.on_packet(&inbound_ip(PEER), &tcp, &[]);
    match out {
        Outcome::Reset(seg) => {
            assert!(seg.tcp.flags.rst);
            assert!(!seg.tcp.flags.syn);
            assert_eq!(seg.tcp.destination_port, 4000);
            assert!(seg.payload.is_empty());
        }
        other => panic!("expected a reset, got {:?}", other),
    }
    assert_eq!(c.state, State::SynRcvd);
    assert_eq!(c.send, before);
}

#[test]
fn invalid_ack_after_sync_is_dropped() {
    let (mut c, _) = opened(1000);
    let ack = inbound_tcp(4000, 1001, 1, flags(false, true, false, false));
    c.on_packet(&inbound_ip(PEER), &ack, &[]);
    let bad = inbound_tcp(4000, 1001, 77, flags(false, true, false, false));
    let out = c.on_packet(&inbound_ip(PEER), &bad, &[]);
    assert!(matches!(out, Outcome::Dropped));
    assert_eq!(c.state, State::Estab);
}

#[test]
fn syn_rcvd_without_ack_is_dropped() {
    let (mut c, _) = opened(1000);
    let tcp = inbound_tcp(4000, 1001, 0, flags(false, false, false, false));
    let out = c.on_packet(&inbound_ip(PEER), &tcp, &[]);
    assert!(matches!(out, Outcome::Dropped));
    assert_eq!(c.state, State::SynRcvd);
}

fn with_window(wnd: u16) -> Connection {
    let (mut c, _) = opened(1000);
    c.recv.wnd = wnd;
    c
}

#[test]
fn empty_segment_at_nxt_accepted_with_zero_window() {
    let mut c = with_window(0);
    let tcp = inbound_tcp(4000, 1001, 1, flags(false, true, false, false));
    assert!(matches!(c.on_packet(&inbound_ip(PEER), &tcp, &[]), Outcome::Established));
}

#[test]
fn empty_segment_at_nxt_accepted_with_open_window() {
    let mut c = with_window(100);
    let tcp = inbound_tcp(4000, 1001, 1, flags(false, true, false, false));
    assert!(matches!(c.on_packet(&inbound_ip(PEER), &tcp, &[]), Outcome::Established));
}

#[test]
fn empty_segment_at_window_end_rejected() {
    let mut c = with_window(100);
    let tcp = inbound_tcp(4000, 1101, 1, flags(false, true, false, false));
    assert!(matches!(c.on_packet(&inbound_ip(PEER), &tcp, &[]), Outcome::Dropped));
    assert_eq!(c.state, State::SynRcvd);
    let inside = inbound_tcp(4000, 1100, 1, flags(false, true, false, false));
    assert!(matches!(c.on_packet(&inbound_ip(PEER), &inside, &[]), Outcome::Established));
}

#[test]
fn zero_window_rejects_other_sequence() {
    let mut c = with_window(0);
    let tcp = inbound_tcp(4000, 1002, 1, flags(false, true, false, false));
    assert!(matches!(c.on_packet(&inbound_ip(PEER), &tcp, &[]), Outcome::Dropped));
}

#[test]
fn data_with_zero_window_rejected() {
    let mut c = with_window(0);
    let tcp = inbound_tcp(4000, 1001, 1, flags(false, true, false, false));
    assert!(matches!(c.on_packet(&inbound_ip(PEER), &tcp, &[1, 2, 3]), Outcome::Dropped));
}

#[test]
fn data_whose_last_octet_is_in_window_accepted() {
    let mut c = with_window(10);
    let tcp = inbound_tcp(4000, 995, 1, flags(false, true, false, false));
    let data = [0u8; 8];
    assert!(matches!(c.on_packet(&inbound_ip(PEER), &tcp, &data), Outcome::Established));
}

#[test]
fn data_entirely_before_window_rejected() {
    let mut c = with_window(10);
    let tcp = inbound_tcp(4000, 990, 1, flags(false, true, false, false));
    let data = [0u8; 5];
    assert!(matches!(c.on_packet(&inbound_ip(PEER), &tcp, &data), Outcome::Dropped));
}

#[test]
fn data_crossing_sequence_wrap_accepted() {
    let (mut c, _) = opened(u32::MAX - 1);
    c.recv.wnd = 10;
    assert_eq!(c.recv.nxt, u32::MAX);
    let tcp = inbound_tcp(4000, u32::MAX - 3, 1, flags(false, true, false, false));
    let data = [0u8; 6];
    assert!(matches!(c.on_packet(&inbound_ip(PEER), &tcp, &data), Outcome::Established));
}

#[test]
fn redelivered_old_segment_changes_nothing() {
    let (mut c, _) = opened(1000);
    let ack = inbound_tcp(4000, 1001, 1, flags(false, true, false, false));
    c.on_packet(&inbound_ip(PEER), &ack, &[]);
    c.recv.nxt = 2001;
    c.recv.wnd = 10;
    let snapshot = (c.state, c.send, c.recv);
    let old = inbound_tcp(4000, 1001, 1, flags(false, true, false, false));
    let data = [0u8; 4];
    let out = c.on_packet(&inbound_ip(PEER), &old, &data);
    assert!(matches!(out, Outcome::Dropped));
    assert_eq!((c.state, c.send, c.recv), snapshot);
    let again = c.on_packet(&inbound_ip(PEER), &old, &data);
    assert!(matches!(again, Outcome::Dropped));
    assert_eq!((c.state, c.send, c.recv), snapshot);
}

#[test]
fn established_accepts_in_window_segment() {
    let (mut c, _) = opened(1000);
    let ack = inbound_tcp(4000, 1001, 1, flags(false, true, false, false));
    c.on_packet(&inbound_ip(PEER), &ack, &[]);
    let out = c.on_packet(&inbound_ip(PEER), &ack, &[]);
    assert!(matches!(out, Outcome::Accepted));
    assert_eq!(c.state, State::Estab);
}

#[test]
fn listen_state_reports_unsupported() {
    let (mut c, _) = opened(1000);
    c.state = State::Listen;
    let tcp = inbound_tcp(4000, 1001, 1, flags(false, true, false, false));
    assert!(matches!(c.on_packet(&inbound_ip(PEER), &tcp, &[]), Outcome::Unsupported));
    assert_eq!(c.state, State::Listen);
}

#[test]
fn synchronized_only_when_established() {
    assert!(State::Estab.is_synchronized());
    assert!(!State::SynRcvd.is_synchronized());
    assert!(!State::Listen.is_synchronized());
    assert!(!State::Closed.is_synchronized());
}

#[test]
fn write_truncates_payload_and_advances() {
    let (mut c, _) = opened(1000);
    let payload = vec![7u8; 2000];
    let seg = c.write(flags(false, true, true, false), &payload);
    assert_eq!(seg.payload.len(), 1460);
    assert_eq!(seg.tcp.sequence_number, 1);
    assert_eq!(c.send.nxt, 1 + 1460 + 1);
}

fn quad(source: u32, port: u16) -> Quad {
    Quad { src_addr: source, src_port: port, dst_addr: LOCAL, dst_port: 80 }
}

#[test]
fn table_opens_independent_connections() {
    let mut t = ConnectionTable::new();
    let syn = flags(true, false, false, false);
    let a = t.on_segment(&inbound_ip(PEER), &inbound_tcp(4000, 1000, 0, syn), &[]);
    let b = t.on_segment(&inbound_ip(PEER), &inbound_tcp(4001, 5000, 0, syn), &[]);
    assert!(a.is_some() && b.is_some());
    assert_eq!(t.len(), 2);
    assert_eq!(t.get(&quad(PEER, 4000)).unwrap().recv.irs, 1000);
    assert_eq!(t.get(&quad(PEER, 4001)).unwrap().recv.irs, 5000);
    let ack = inbound_tcp(4000, 1001, 1, flags(false, true, false, false));
    assert!(t.on_segment(&inbound_ip(PEER), &ack, &[]).is_none());
    assert_eq!(t.get(&quad(PEER, 4000)).unwrap().state, State::Estab);
    assert_eq!(t.get(&quad(PEER, 4001)).unwrap().state, State::SynRcvd);
}

#[test]
fn table_does_not_reopen_existing_flow() {
    let mut t = ConnectionTable::new();
    let syn = flags(true, false, false, false);
    t.on_segment(&inbound_ip(PEER), &inbound_tcp(4000, 1000, 0, syn), &[]);
    let again = t.on_segment(&inbound_ip(PEER), &inbound_tcp(4000, 9000, 0, syn), &[]);
    assert!(again.is_none());
    assert_eq!(t.len(), 1);
    assert_eq!(t.get(&quad(PEER, 4000)).unwrap().recv.irs, 1000);
}

#[test]
fn table_ignores_stray_segment() {
    let mut t = ConnectionTable::new();
    let out = t.on_segment(&inbound_ip(PEER), &inbound_tcp(4000, 1000, 0, flags(false, true, false, false)), &[]);
    assert!(out.is_none());
    assert_eq!(t.len(), 0);
    assert!(t.get(&quad(PEER, 4000)).is_none());
}

#[test]
fn quad_keys_differ_per_field() {
    let base = quad(PEER, 4000);
    let k = base.key();
    assert_ne!(k, Quad { src_addr: PEER + 1, ..base }.key());
    assert_ne!(k, Quad { src_port: 4001, ..base }.key());
    assert_ne!(k, Quad { dst_addr: LOCAL + 1, ..base }.key());
    assert_ne!(k, Quad { dst_port: 81, ..base }.key());
}

fn peer_frame(tcp: TcpFields, payload: Vec<u8>) -> Vec<u8> {
    let seg = Segment { ip: inbound_ip(PEER), tcp, payload };
    seg.to_bytes()
}

#[test]
fn encoded_segment_decodes_to_its_fields() {
    let tcp = inbound_tcp(4000, 123_456, 789, flags(true, true, false, false));
    let bytes = peer_frame(tcp, vec![1, 2, 3]);
    assert_eq!(bytes.len(), 43);
    assert_eq!(bytes[0], 0x45);
    let v = decode_frame(&bytes).expect("readable");
    assert_eq!(v.ip, inbound_ip(PEER));
    assert_eq!(v.tcp, tcp);
    assert_eq!(v.payload_start, 40);
}

#[test]
fn encoded_checksum_depends_on_payload() {
    let tcp = inbound_tcp(4000, 1, 2, flags(false, true, false, false));
    let a = peer_frame(tcp, vec![1, 2, 3, 4]);
    let b = peer_frame(tcp, vec![1, 2, 3, 5]);
    assert_ne!(a[36..38], b[36..38]);
}

#[test]
fn decode_rejects_short_frame() {
    assert_eq!(decode_frame(&[0x45, 0, 0]), Err(FrameError::MalformedIp));
}

#[test]
fn decode_rejects_other_protocol() {
    let mut bytes = peer_frame(inbound_tcp(4000, 1, 2, flags(true, false, false, false)), vec![]);
    bytes[9] = 0x11;
    assert_eq!(decode_frame(&bytes), Err(FrameError::NotTcp));
}

#[test]
fn decode_rejects_truncated_tcp() {
    let bytes = peer_frame(inbound_tcp(4000, 1, 2, flags(true, false, false, false)), vec![]);
    assert_eq!(decode_frame(&bytes[..30]), Err(FrameError::MalformedTcp));
}

#[test]
fn frame_handshake_end_to_end() {
    let mut t = ConnectionTable::new();
    let syn = peer_frame(inbound_tcp(4000, 1000, 0, flags(true, false, false, false)), vec![]);
    let reply = t.on_frame(&syn).expect("readable").expect("a SYN-ACK");
    let v = decode_frame(&reply).expect("the reply is readable");
    assert!(v.tcp.flags.syn && v.tcp.flags.ack);
    assert_eq!(v.tcp.acknowledgment_number, 1001);
    assert_eq!(v.ip.source, LOCAL);
    assert_eq!(v.ip.destination, PEER);
    let ack = peer_frame(inbound_tcp(4000, 1001, 1, flags(false, true, false, false)), vec![]);
    assert!(t.on_frame(&ack).expect("readable").is_none());
    assert_eq!(t.get(&quad(PEER, 4000)).unwrap().state, State::Estab);
}

#[test]
fn frame_with_bad_header_leaves_table() {
    let mut t = ConnectionTable::new();
    assert_eq!(t.on_frame(&[1, 2, 3]), Err(FrameError::MalformedIp));
    assert_eq!(t.len(), 0);
}

#[test]
fn packet_info_prefix_stripped_for_ipv4() {
    let frame = [0u8, 0, 0x08, 0x00, 0x45, 0x00];
    assert_eq!(trust_tcp::header::strip_packet_info(&frame), Some(&frame[4..]));
}

#[test]
fn packet_info_prefix_other_protocol_refused() {
    let ipv6 = [0u8, 0, 0x86, 0xdd, 0x60];
    assert_eq!(trust_tcp::header::strip_packet_info(&ipv6), None);
    assert_eq!(trust_tcp::header::strip_packet_info(&[0u8, 0, 8]), None);
}
