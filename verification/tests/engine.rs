use typenet::application::ServerApp;
use typenet::addr_pairs::{Ipv4AddrPair, PortPair};
use typenet::ipv4_header::Ipv4Header;
use typenet::protocol::engine::{encode_packet, Engine, PacketOutcome, ShutdownOutcome, MAX_DEADLINE_MS};
use typenet::protocol::router::ProtocolRouter;
use typenet::protocol::tcp::connections::{RtoConfig, TcpConnections};
use typenet::protocol::tcp::flags::TcpFlags;
use typenet::protocol::tcp::seq_space::SeqPoint;
use typenet::protocol::tcp::TcpSegment;
use typenet::protocol::Protocol;

const CLIENT_IP: u32 = 0x0A00_0002;
const SERVER_IP: u32 = 0x0A00_0001;
const CLIENT_ISN: u32 = 100;
const SERVER_ISN: u32 = 400;

/// A grace period of one year, in milliseconds.
const ONE_YEAR_GRACE_PERIOD: u128 = 24 * 365 * 3600 * 1000;

fn client(seq: u32, ack: u32, flags: TcpFlags) -> TcpSegment {
    TcpSegment {
        ip_pair: Ipv4AddrPair { src: CLIENT_IP, dst: SERVER_IP },
        ports: PortPair { src: 1234, dst: 80 },
        seq_num: SeqPoint { value: seq },
        ack_num: SeqPoint { value: ack },
        offset_bytes: 20,
        flags,
        window: u16::MAX,
        payload: None,
    }
}

fn server(seq: u32, ack: u32, flags: TcpFlags) -> TcpSegment {
    TcpSegment {
        ip_pair: Ipv4AddrPair { src: SERVER_IP, dst: CLIENT_IP },
        ports: PortPair { src: 80, dst: 1234 },
        seq_num: SeqPoint { value: seq },
        ack_num: SeqPoint { value: ack },
        offset_bytes: 20,
        flags,
        window: u16::MAX,
        payload: None,
    }
}

fn client_syn() -> TcpSegment {
    client(0, 0, TcpFlags::Syn)
}

fn with_syn_rcv_at(mut conns: TcpConnections, now: u64) -> TcpConnections {
    client(CLIENT_ISN, 0, TcpFlags::Syn)
        .create_reply(&mut conns, ServerApp::Echo, SERVER_ISN, now)
        .expect("SYN is answered");
    conns
}

fn with_syn_rcv(conns: TcpConnections) -> TcpConnections {
    with_syn_rcv_at(conns, 0)
}

fn after_handshake(conns: TcpConnections) -> TcpConnections {
    let mut conns = with_syn_rcv(conns);
    client(CLIENT_ISN + 1, SERVER_ISN + 1, TcpFlags::Ack)
        .create_reply(&mut conns, ServerApp::Echo, SERVER_ISN, 0)
        .expect("handshake completes");
    conns
}

fn test_engine(tcp_connections: TcpConnections) -> Engine {
    Engine {
        app: ServerApp::Echo,
        tcp_connections,
        shutdown_grace_period: ONE_YEAR_GRACE_PERIOD,
        shutdown_deadline: None,
    }
}

/// Encodes `seg` into a full IPv4 packet so it can be handed to `handle_packet` as raw bytes.
fn encode_pkt(seg: TcpSegment) -> Vec<u8> {
    encode_packet(&ProtocolRouter::Tcp(seg)).expect("encodes").bytes
}

#[test]
fn ipv4_parse_error_is_skipped() {
    let result = test_engine(TcpConnections::default()).handle_packet(&[0u8; 5], 0, 0);
    assert!(matches!(
        result,
        Err(e) if e.message().contains("Skipping packet") && e.message().contains("IPv4")
    ));
}

#[test]
fn ipv4_ok_but_tcp_parse_error_is_skipped() {
    // A valid IPv4 header claiming a 4-byte TCP payload (far too short), so IPv4 parsing
    // succeeds while TCP parsing fails.
    let fixture = client_syn();
    let ipv4_hdr = Ipv4Header::try_new(Protocol::Tcp, fixture.ip_pair, 4).expect("fits");
    let mut buf = [0u8; 1500];
    ipv4_hdr.write_into(&mut buf);

    let result = test_engine(TcpConnections::default())
        .handle_packet(&buf[..usize::from(ipv4_hdr.total_len)], 0, 0);
    assert!(matches!(
        result,
        Err(e) if e.message().contains("Skipping packet") && e.message().contains("TCP")
    ));
}

#[test]
fn syn_parses_and_produces_a_reply() {
    let bytes = encode_pkt(client_syn());

    let outcome = test_engine(TcpConnections::default()).handle_packet(&bytes, 7, 0);
    assert!(matches!(
        outcome,
        Ok(PacketOutcome { incoming: ref i, reply: Some(ProtocolRouter::Tcp(_)) })
            if matches!(i.router, ProtocolRouter::Tcp(_))
    ));
}

#[test]
fn handshake_ack_parses_and_produces_no_reply() {
    let bytes = encode_pkt(client(CLIENT_ISN + 1, SERVER_ISN + 1, TcpFlags::Ack));

    let outcome = test_engine(with_syn_rcv(TcpConnections::default())).handle_packet(&bytes, 0, 0);
    assert!(matches!(
        outcome,
        Ok(PacketOutcome { incoming: ref i, reply: None }) if matches!(i.router, ProtocolRouter::Tcp(_))
    ));
}

#[test]
fn forwards_due_segments_from_tcp_connections() {
    let mut engine = test_engine(with_syn_rcv(TcpConnections::new(RtoConfig::default(), 5)));

    assert_eq!(
        engine.make_retransmissions(1000),
        vec![server(SERVER_ISN, CLIENT_ISN + 1, TcpFlags::SynAck)]
    );
}

#[test]
fn no_connections_reports_no_connections_and_does_not_set_deadline() {
    let mut engine = test_engine(TcpConnections::default());

    assert_eq!(engine.handle_shutdown(1_000), Ok(ShutdownOutcome::NoConnections));
    assert!(engine.shutdown_deadline.is_none());
}

#[test]
fn established_connection_begins_draining_and_sets_deadline() {
    let mut engine = test_engine(after_handshake(TcpConnections::default()));
    let now = 1_000;

    assert_eq!(
        engine.handle_shutdown(now),
        Ok(ShutdownOutcome::BeganDraining {
            to_send: vec![server(SERVER_ISN + 1, CLIENT_ISN + 1, TcpFlags::FinAck)]
        })
    );
    assert_eq!(engine.shutdown_deadline, Some(u128::from(now) + ONE_YEAR_GRACE_PERIOD));
}

#[test]
fn established_connection_begins_draining_with_fin_ack_and_deadline() {
    const GRACE_PERIOD: u128 = 10_000;
    let mut engine = test_engine(after_handshake(TcpConnections::default()));
    engine.shutdown_grace_period = GRACE_PERIOD;
    let now = 1_000;

    let outcome = engine.handle_shutdown(now).expect("deadline fits");
    assert!(matches!(
        outcome,
        ShutdownOutcome::BeganDraining { to_send } if to_send.len() == 1
            && to_send[0].flags == TcpFlags::FinAck
    ));
    assert_eq!(engine.shutdown_deadline, Some(u128::from(now) + GRACE_PERIOD));
}

#[test]
fn shout_engine_capitalizes_udp_and_tcp_replies() {
    let mut engine = Engine::with_app(ServerApp::Shout, RtoConfig::default(), 15, ONE_YEAR_GRACE_PERIOD);
    let udp = ProtocolRouter::Udp(typenet::protocol::udp::UdpDatagram {
        ip_pair: Ipv4AddrPair { src: CLIENT_IP, dst: SERVER_IP },
        ports: PortPair::new(5000, 7),
        payload: b"Hi there".to_vec(),
    });
    let outcome = engine.handle_packet(&encode_packet(&udp).expect("encodes").bytes, SERVER_ISN, 0).expect("handled");
    assert!(matches!(outcome.reply, Some(ProtocolRouter::Udp(d)) if d.payload == b"HI THERE"));

    engine.handle_packet(&encode_pkt(client(CLIENT_ISN, 0, TcpFlags::Syn)), SERVER_ISN, 0).expect("SYN");
    engine
        .handle_packet(&encode_pkt(client(CLIENT_ISN + 1, SERVER_ISN + 1, TcpFlags::Ack)), SERVER_ISN, 0)
        .expect("ACK");
    let mut data = client(CLIENT_ISN + 1, SERVER_ISN + 1, TcpFlags::Ack);
    data.payload = typenet::protocol::tcp::payload::TcpPayload::try_from_bytes(b"abc".to_vec()).expect("short");
    let outcome = engine.handle_packet(&encode_pkt(data), SERVER_ISN, 0).expect("data");
    assert!(matches!(
        outcome.reply,
        Some(ProtocolRouter::Tcp(seg)) if seg.payload.as_ref().map(|p| p.as_bytes().to_vec()) == Some(b"ABC".to_vec())
    ));
}

#[test]
fn second_call_reports_time_left_without_resending() {
    let mut engine = test_engine(after_handshake(TcpConnections::default()));
    let now = 1_000;
    engine.handle_shutdown(now).expect("begins draining");

    let later = now + 5_000;
    let expected_deadline = u128::from(now) + ONE_YEAR_GRACE_PERIOD;

    assert_eq!(
        engine.handle_shutdown(later),
        Ok(ShutdownOutcome::AlreadyDraining { time_left: expected_deadline - u128::from(later) })
    );
}

#[test]
fn overflowing_deadline_errors_instead_of_panicking() {
    let mut engine = test_engine(after_handshake(TcpConnections::default()));
    // The longest grace period there is: u64::MAX seconds and 999 milliseconds
    engine.shutdown_grace_period = u128::from(u64::MAX) * 1000 + 999;

    assert!(matches!(engine.handle_shutdown(1_000), Err(e) if e.message().contains("Overflowed")));
    assert!(engine.shutdown_deadline.is_none());
}

#[test]
fn grace_periods_beyond_u64_milliseconds_still_begin_draining() {
    let mut engine = test_engine(after_handshake(TcpConnections::default()));
    // u64::MAX seconds would not fit in milliseconds of a u64, but its deadline fits the clock
    engine.shutdown_grace_period = u128::from(1u64 << 53) * 1000;
    assert!(matches!(engine.handle_shutdown(1_000), Ok(ShutdownOutcome::BeganDraining { .. })));
    assert_eq!(engine.shutdown_deadline, Some(1_000 + u128::from(1u64 << 53) * 1000));
    assert_eq!(
        engine.handle_shutdown(1_000),
        Ok(ShutdownOutcome::AlreadyDraining { time_left: u128::from(1u64 << 53) * 1000 })
    );
}

#[test]
fn deadline_at_the_clock_limit_is_accepted_and_past_it_refused() {
    let limit = MAX_DEADLINE_MS;
    let mut engine = test_engine(after_handshake(TcpConnections::default()));
    engine.shutdown_grace_period = limit - 1_000;
    assert!(engine.handle_shutdown(1_000).is_ok());
    assert_eq!(engine.shutdown_deadline, Some(limit));

    let mut engine = test_engine(after_handshake(TcpConnections::default()));
    engine.shutdown_grace_period = limit - 999;
    assert_eq!(engine.handle_shutdown(1_000), Err(typenet::error::StackError::Overflowed));
    assert!(engine.shutdown_deadline.is_none());
}

#[test]
fn neither_deadline_gives_no_timeout() {
    assert_eq!(test_engine(TcpConnections::default()).poll_timeout(1_000), None);
}

#[test]
fn shutdown_deadline_alone_gives_duration() {
    const GRACE_PERIOD: u128 = 10_000;

    let now = 1_000;
    let mut engine = test_engine(TcpConnections::default());
    engine.shutdown_deadline = Some(u128::from(now) + GRACE_PERIOD);

    assert_eq!(engine.poll_timeout(now), Some(GRACE_PERIOD));
}

#[test]
fn pending_retransmission_alone_gives_duration() {
    const INITIAL_RTO: u64 = 750;

    let now = 1_000;
    let engine = test_engine(with_syn_rcv_at(
        TcpConnections::new(RtoConfig { initial: INITIAL_RTO, ..RtoConfig::default() }, 5),
        now,
    ));

    assert_eq!(engine.poll_timeout(now), Some(u128::from(INITIAL_RTO)));
}

#[test]
fn earlier_retransmit_deadline_taken_over_later_shutdown_deadline() {
    const INITIAL_RTO: u64 = 250;

    let now = 1_000;
    let mut engine = test_engine(with_syn_rcv_at(
        TcpConnections::new(RtoConfig { initial: INITIAL_RTO, ..RtoConfig::default() }, 5),
        now,
    ));
    engine.shutdown_deadline = Some(u128::from(now) + 30_000);

    assert_eq!(engine.poll_timeout(now), Some(u128::from(INITIAL_RTO)));
}

#[test]
fn earlier_shutdown_deadline_taken_over_later_retransmit_deadline() {
    const GRACE_PERIOD: u128 = 250;

    let now = 1_000;
    let mut engine = test_engine(with_syn_rcv_at(
        TcpConnections::new(RtoConfig { initial: 30_000, ..RtoConfig::default() }, 5),
        now,
    ));
    engine.shutdown_deadline = Some(u128::from(now) + GRACE_PERIOD);

    assert_eq!(engine.poll_timeout(now), Some(GRACE_PERIOD));
}

#[test]
fn past_deadline_saturates_to_zero() {
    let now = 1_000_000;
    let mut engine = test_engine(TcpConnections::default());
    engine.shutdown_deadline = Some(u128::from(now) - 10_000);

    assert_eq!(engine.poll_timeout(now), Some(0));
}

#[test]
fn not_elapsed_with_no_deadline() {
    assert!(!test_engine(TcpConnections::default()).grace_period_elapsed(1_000));
}

#[test]
fn not_elapsed_before_deadline() {
    let now = 1_000;
    let mut engine = test_engine(TcpConnections::default());
    engine.shutdown_deadline = Some(u128::from(now) + 10_000);

    assert!(!engine.grace_period_elapsed(now));
}

#[test]
fn elapsed_past_deadline() {
    let now = 1_000_000;
    let mut engine = test_engine(TcpConnections::default());
    engine.shutdown_deadline = Some(u128::from(now) - 10_000);

    assert!(engine.grace_period_elapsed(now));
}

#[test]
fn elapsed_at_deadline() {
    let now = 1_000;
    let mut engine = test_engine(TcpConnections::default());
    engine.shutdown_deadline = Some(u128::from(now));

    assert!(engine.grace_period_elapsed(now));
}

#[test]
fn false_with_no_deadline_and_nothing_closing() {
    assert!(!test_engine(TcpConnections::default()).draining_complete());
}

#[test]
fn false_with_no_deadline_but_something_closing() {
    let mut tcp_connections = after_handshake(TcpConnections::default());
    tcp_connections.close_established(0);
    assert!(!test_engine(tcp_connections).draining_complete());
}

#[test]
fn false_with_deadline_but_still_closing() {
    let mut tcp_connections = after_handshake(TcpConnections::default());
    tcp_connections.close_established(0);

    let mut engine = test_engine(tcp_connections);
    engine.shutdown_deadline = Some(1_000);

    assert!(!engine.draining_complete());
}

#[test]
fn true_with_deadline_and_nothing_closing() {
    let mut engine = test_engine(TcpConnections::default());
    engine.shutdown_deadline = Some(1_000);
    assert!(engine.draining_complete());
}

#[test]
fn connection_count_tracks_tcp_connections() {
    let engine = Engine::new(RtoConfig::default(), 15, 5_000);
    assert_eq!(engine.connection_count(), 0);
    assert_eq!(test_engine(after_handshake(TcpConnections::default())).connection_count(), 1);
}

#[test]
fn encoded_reply_is_a_valid_ipv4_packet() {
    let bytes = encode_pkt(server(SERVER_ISN, CLIENT_ISN + 1, TcpFlags::SynAck));
    let (hdr, payload) = Ipv4Header::parse(&bytes).expect("valid IPv4");
    assert_eq!(usize::from(hdr.total_len), bytes.len());
    assert_eq!(hdr.protocol, Protocol::Tcp);
    let seg = TcpSegment::parse(payload, hdr.ip_pair).expect("valid TCP");
    assert_eq!(seg, server(SERVER_ISN, CLIENT_ISN + 1, TcpFlags::SynAck));
}
