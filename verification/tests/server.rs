use std::collections::VecDeque;
use typenet::application::ServerApp;
use typenet::addr_pairs::{Ipv4AddrPair, PortPair};
use typenet::ipv4_header::Ipv4Header;
use typenet::protocol::engine::{encode_packet, Engine, ShutdownOutcome};
use typenet::protocol::router::ProtocolRouter;
use typenet::protocol::tcp::connections::{RtoConfig, TcpConnections};
use typenet::protocol::tcp::flags::TcpFlags;
use typenet::protocol::tcp::seq_space::SeqPoint;
use typenet::protocol::tcp::TcpSegment;
use typenet::server::{LoopEvent, PollOutcome, Reaction, Server};

const CLIENT_IP: u32 = 0x0A00_0002;
const SERVER_IP: u32 = 0x0A00_0001;
const CLIENT_ISN: u32 = 100;
const SERVER_ISN: u32 = 400;

/// A zero grace period: the deadline is reached as soon as draining begins.
const IMMEDIATE_GRACE_PERIOD: u128 = 0;
/// A grace period of one year, in milliseconds.
const ONE_YEAR_GRACE_PERIOD: u128 = 24 * 365 * 3600 * 1000;

fn client(seq: u32, ack: u32, flags: TcpFlags) -> TcpSegment {
    TcpSegment {
        ip_pair: Ipv4AddrPair { src: CLIENT_IP, dst: SERVER_IP },
        ports: PortPair { src: 1234, dst: 80 },
        seq_num: SeqPoint { value: seq },
        ack_num: SeqPoint { value: ack },
        offset_bytes: 20,
        flags,
        window: u16::MAX,
        payload: None,
    }
}

fn server(seq: u32, ack: u32, flags: TcpFlags) -> TcpSegment {
    TcpSegment {
        ip_pair: Ipv4AddrPair { src: SERVER_IP, dst: CLIENT_IP },
        ports: PortPair { src: 80, dst: 1234 },
        seq_num: SeqPoint { value: seq },
        ack_num: SeqPoint { value: ack },
        offset_bytes: 20,
        flags,
        window: u16::MAX,
        payload: None,
    }
}

fn with_syn_rcv(mut conns: TcpConnections) -> TcpConnections {
    client(CLIENT_ISN, 0, TcpFlags::Syn).create_reply(&mut conns, ServerApp::Echo, SERVER_ISN, 0).expect("SYN");
    conns
}

fn after_handshake(conns: TcpConnections) -> TcpConnections {
    let mut conns = with_syn_rcv(conns);
    client(CLIENT_ISN + 1, SERVER_ISN + 1, TcpFlags::Ack)
        .create_reply(&mut conns, ServerApp::Echo, SERVER_ISN, 0)
        .expect("ACK");
    conns
}

fn test_new(initial: u64, max_retries: u8) -> TcpConnections {
    TcpConnections::new(RtoConfig { initial, min: 0, max: u64::MAX }, max_retries)
}

fn encode_mock_pkt(seg: TcpSegment) -> Vec<u8> {
    encode_packet(&ProtocolRouter::Tcp(seg)).expect("encodes").bytes
}

fn decode_mock_pkt(bytes: &[u8]) -> TcpSegment {
    let (hdr, payload) = Ipv4Header::parse(bytes).expect("valid IPv4");
    TcpSegment::parse(payload, hdr.ip_pair).expect("valid TCP")
}

/// What a scripted poll call returns.
enum Poll {
    Interrupted,
    Fails(&'static str),
    Returns(PollOutcome),
}

/// What a scripted read call returns.
enum Read {
    Interrupted,
    Fails(&'static str),
    Data(Vec<u8>),
}

/// A scripted device and poller, recording what the loop asks of them.
struct Harness {
    polls: VecDeque<Poll>,
    reads: VecDeque<Read>,
    failing_writes: Option<&'static str>,
    writes: Vec<Vec<u8>>,
    timeouts: Vec<Option<u128>>,
    watched_shutdown: Vec<bool>,
    poll_calls: usize,
}

impl Harness {
    fn new(polls: Vec<Poll>, reads: Vec<Read>) -> Self {
        Harness {
            polls: polls.into(),
            reads: reads.into(),
            failing_writes: None,
            writes: Vec::new(),
            timeouts: Vec::new(),
            watched_shutdown: Vec::new(),
            poll_calls: 0,
        }
    }

    fn send(&mut self, out: ProtocolRouter) -> Result<(), String> {
        let bytes = encode_packet(&out).map_err(|e| e.message())?.bytes;
        match self.failing_writes {
            Some(msg) => Err(msg.to_string()),
            None => {
                self.writes.push(bytes);
                Ok(())
            }
        }
    }
}

/// Runs the server loop against the harness, the way the program drives it: poll, feed the
/// outcome to the server, perform what it asks for, repeat until it says to exit.
fn run_test_server(
    tcp_connections: TcpConnections,
    h: &mut Harness,
    shutdown_check: impl Fn(usize) -> bool,
    shutdown_grace_period: u128,
) -> Result<(), String> {
    let mut server = Server::new(Engine {
        app: ServerApp::Echo,
        tcp_connections,
        shutdown_grace_period,
        shutdown_deadline: None,
    });
    let mut now: u64 = 1_000;
    loop {
        now += 1;
        let (timeout, watch) = server.poll_args(now);
        h.timeouts.push(timeout);
        h.watched_shutdown.push(watch);
        h.poll_calls += 1;
        let poll = h.polls.pop_front().ok_or("poll script exhausted")?;
        let both = matches!(poll, Poll::Returns(PollOutcome::Both));
        let event = match poll {
            Poll::Interrupted => LoopEvent::PollInterrupted { shutdown: shutdown_check(h.poll_calls) },
            Poll::Fails(msg) => return Err(msg.to_string()),
            Poll::Returns(outcome) => {
                LoopEvent::Polled { outcome, shutdown: shutdown_check(h.poll_calls) }
            }
        };
        let mut reaction = server.react(event, now).map_err(|e| e.message())?;
        if let Reaction::Read = reaction {
            let event = match h.reads.pop_front().ok_or("read script exhausted")? {
                Read::Interrupted => {
                    LoopEvent::ReadInterrupted { shutdown: shutdown_check(h.poll_calls) }
                }
                Read::Fails(msg) => return Err(msg.to_string()),
                Read::Data(data) => LoopEvent::PacketRead {
                    data,
                    isn: SERVER_ISN,
                    shutdown_too: both && shutdown_check(h.poll_calls),
                },
            };
            reaction = server.react(event, now).map_err(|e| e.message())?;
        }
        match reaction {
            Reaction::Wait | Reaction::Read => {}
            Reaction::Shutdown { outcome, exit } => {
                if let ShutdownOutcome::BeganDraining { to_send } = outcome {
                    for seg in to_send {
                        h.send(ProtocolRouter::Tcp(seg))?;
                    }
                }
                if exit {
                    return Ok(());
                }
            }
            Reaction::GraceElapsed { .. } => return Ok(()),
            Reaction::Retransmit { to_send } => {
                for seg in to_send {
                    h.send(ProtocolRouter::Tcp(seg))?;
                }
            }
            Reaction::Packet { handled, shutdown, exit } => {
                if let Ok(o) = handled {
                    if let Some(reply) = o.reply {
                        h.send(reply)?;
                    }
                }
                if let Some(ShutdownOutcome::BeganDraining { to_send }) = shutdown {
                    for seg in to_send {
                        h.send(ProtocolRouter::Tcp(seg))?;
                    }
                }
                if exit {
                    return Ok(());
                }
            }
        }
    }
}

#[test]
fn grace_period_not_elapsed_with_no_deadline() {
    let server = Server::new(Engine::new(RtoConfig::default(), 15, ONE_YEAR_GRACE_PERIOD));
    assert!(!server.grace_period_elapsed(1_000));
}

#[test]
fn grace_period_not_elapsed_before_deadline() {
    let mut server = Server::new(Engine::new(RtoConfig::default(), 15, ONE_YEAR_GRACE_PERIOD));
    server.engine.shutdown_deadline = Some(11_000);
    assert!(!server.grace_period_elapsed(1_000));
}

#[test]
fn grace_period_elapsed_past_deadline() {
    let mut server = Server::new(Engine::new(RtoConfig::default(), 15, ONE_YEAR_GRACE_PERIOD));
    server.engine.shutdown_deadline = Some(1_000);
    assert!(server.grace_period_elapsed(11_000));
}

#[test]
fn grace_period_elapsed_at_deadline() {
    let mut server = Server::new(Engine::new(RtoConfig::default(), 15, ONE_YEAR_GRACE_PERIOD));
    server.engine.shutdown_deadline = Some(1_000);
    assert!(server.grace_period_elapsed(1_000));
}

#[test]
fn first_interrupt_with_established_connection_sends_fin_ack_and_continues() {
    let mut h = Harness::new(vec![Poll::Interrupted, Poll::Returns(PollOutcome::Timeout)], vec![]);

    run_test_server(
        after_handshake(TcpConnections::default()),
        &mut h,
        |_| true,
        IMMEDIATE_GRACE_PERIOD,
    )
    .expect("exits cleanly");

    assert_eq!(h.writes.len(), 1, "Expected exactly one write");
    assert_eq!(decode_mock_pkt(&h.writes[0]), server(SERVER_ISN + 1, CLIENT_ISN + 1, TcpFlags::FinAck));
}

#[test]
fn second_interrupt_while_draining_does_not_resend_or_exit() {
    const MESSAGE: &str = "boom, unrelated to shutdown";

    let mut h = Harness::new(vec![Poll::Interrupted, Poll::Interrupted, Poll::Fails(MESSAGE)], vec![]);

    let result = run_test_server(
        after_handshake(TcpConnections::default()),
        &mut h,
        |_| true,
        ONE_YEAR_GRACE_PERIOD,
    );
    assert!(matches!(result, Err(e) if e.contains(MESSAGE)));
    assert_eq!(h.poll_calls, 3, "All three poll calls should have been needed");
    assert_eq!(h.writes.len(), 1, "Expected exactly one write");
    assert_eq!(decode_mock_pkt(&h.writes[0]), server(SERVER_ISN + 1, CLIENT_ISN + 1, TcpFlags::FinAck));
}

#[test]
fn interrupt_with_no_established_connections_exits_immediately() {
    let mut h = Harness::new(vec![Poll::Interrupted, Poll::Fails("other")], vec![]);

    let result = run_test_server(TcpConnections::default(), &mut h, |_| true, IMMEDIATE_GRACE_PERIOD);

    assert_eq!(result, Ok(()), "Server should exit before hitting the error that would be propagated");
    assert!(h.writes.is_empty(), "No connections to close, nothing should be written");
}

#[test]
fn interrupt_unrelated_to_shutdown_is_ignored() {
    let mut h = Harness::new(vec![Poll::Interrupted, Poll::Interrupted], vec![]);

    run_test_server(TcpConnections::default(), &mut h, |calls| calls >= 2, IMMEDIATE_GRACE_PERIOD)
        .expect("exits cleanly");

    assert_eq!(h.poll_calls, 2, "The first interrupt should not have ended the loop early");
    assert!(h.writes.is_empty(), "Nothing should have been written");
}

#[test]
fn read_interrupt_reaches_the_same_shutdown_handling_as_poll_interrupt() {
    let mut h = Harness::new(vec![Poll::Returns(PollOutcome::Readable)], vec![Read::Interrupted]);

    run_test_server(TcpConnections::default(), &mut h, |_| true, IMMEDIATE_GRACE_PERIOD)
        .expect("exits cleanly");

    assert!(h.writes.is_empty(), "No connections to close, nothing should be written");
}

#[test]
fn malformed_pkt_is_skipped_without_propagating_or_writing() {
    let mut h = Harness::new(
        vec![Poll::Returns(PollOutcome::Readable), Poll::Interrupted],
        vec![Read::Data(vec![0u8; 5])],
    );

    let result = run_test_server(TcpConnections::default(), &mut h, |_| true, IMMEDIATE_GRACE_PERIOD);

    assert_eq!(result, Ok(()), "A malformed packet error should not propagate");
    assert!(h.writes.is_empty(), "A malformed packet should not produce a reply");
}

#[test]
fn valid_syn_producing_a_reply_is_sent() {
    let mut h = Harness::new(
        vec![Poll::Returns(PollOutcome::Readable), Poll::Interrupted],
        vec![Read::Data(encode_mock_pkt(client(0, 0, TcpFlags::Syn)))],
    );

    run_test_server(TcpConnections::default(), &mut h, |_| true, IMMEDIATE_GRACE_PERIOD)
        .expect("exits cleanly");

    assert_eq!(h.writes.len(), 1, "The SYN should get a SYN-ACK reply written");
}

#[test]
fn valid_ack_completing_handshake_produces_no_reply() {
    const MESSAGE: &str = "boom from poll, unrelated to the ACK just processed";

    let mut h = Harness::new(
        vec![Poll::Returns(PollOutcome::Readable), Poll::Fails(MESSAGE)],
        vec![Read::Data(encode_mock_pkt(client(CLIENT_ISN + 1, SERVER_ISN + 1, TcpFlags::Ack)))],
    );

    let result = run_test_server(
        with_syn_rcv(TcpConnections::default()),
        &mut h,
        |_| false,
        ONE_YEAR_GRACE_PERIOD,
    );
    assert!(matches!(result, Err(e) if e.contains(MESSAGE)));
    assert!(h.writes.is_empty(), "The handshake-completing ACK should not produce a reply");
}

#[test]
fn poll_error_unrelated_to_interruption_propagates() {
    const MESSAGE: &str = "boom from poll";

    let mut h = Harness::new(vec![Poll::Fails(MESSAGE)], vec![]);
    let result = run_test_server(TcpConnections::default(), &mut h, |_| false, ONE_YEAR_GRACE_PERIOD);

    assert!(matches!(result, Err(e) if e.contains(MESSAGE)));
    assert!(h.writes.is_empty(), "Error should propagate without anything written");
}

#[test]
fn read_error_unrelated_to_interruption_propagates() {
    const MESSAGE: &str = "boom from read";

    let mut h = Harness::new(vec![Poll::Returns(PollOutcome::Readable)], vec![Read::Fails(MESSAGE)]);
    let result = run_test_server(TcpConnections::default(), &mut h, |_| false, ONE_YEAR_GRACE_PERIOD);

    assert!(matches!(result, Err(e) if e.contains(MESSAGE)));
    assert!(h.writes.is_empty(), "Error should propagate without anything written");
}

#[test]
fn write_failure_while_sending_fin_ack_propagates() {
    const MESSAGE: &str = "boom from write";

    let mut h = Harness::new(vec![Poll::Interrupted], vec![]);
    h.failing_writes = Some(MESSAGE);

    let result = run_test_server(
        after_handshake(TcpConnections::default()),
        &mut h,
        |_| true,
        ONE_YEAR_GRACE_PERIOD,
    );

    assert!(matches!(result, Err(e) if e.contains(MESSAGE)));
    assert!(h.writes.is_empty(), "Error should propagate without anything written");
}

#[test]
fn due_retransmission_is_sent_as_real_io() {
    let mut h = Harness::new(vec![Poll::Returns(PollOutcome::Timeout), Poll::Interrupted], vec![]);

    run_test_server(with_syn_rcv(test_new(0, 5)), &mut h, |_| true, ONE_YEAR_GRACE_PERIOD)
        .expect("exits cleanly");

    assert_eq!(h.writes.len(), 1, "Expected exactly one write");
    assert_eq!(decode_mock_pkt(&h.writes[0]), server(SERVER_ISN, CLIENT_ISN + 1, TcpFlags::SynAck));
}

#[test]
fn retransmission_does_not_drop_the_connection() {
    let mut h = Harness::new(
        vec![
            Poll::Returns(PollOutcome::Timeout),
            Poll::Returns(PollOutcome::Timeout),
            Poll::Interrupted,
        ],
        vec![],
    );

    run_test_server(with_syn_rcv(test_new(0, 5)), &mut h, |_| true, ONE_YEAR_GRACE_PERIOD)
        .expect("exits cleanly");

    assert_eq!(h.writes.len(), 2, "The connection should survive the first retransmit");
    for write in &h.writes {
        assert_eq!(decode_mock_pkt(write), server(SERVER_ISN, CLIENT_ISN + 1, TcpFlags::SynAck));
    }
}

#[test]
fn gives_up_and_drops_connection_after_max_retries() {
    let mut h = Harness::new(
        vec![
            Poll::Returns(PollOutcome::Timeout),
            Poll::Returns(PollOutcome::Timeout),
            Poll::Returns(PollOutcome::Timeout),
            Poll::Interrupted,
        ],
        vec![],
    );

    run_test_server(with_syn_rcv(test_new(0, 2)), &mut h, |_| true, ONE_YEAR_GRACE_PERIOD)
        .expect("exits cleanly");

    assert_eq!(h.writes.len(), 2, "Only 2 retransmissions should be written before giving up");
    for write in &h.writes {
        assert_eq!(decode_mock_pkt(write), server(SERVER_ISN, CLIENT_ISN + 1, TcpFlags::SynAck));
    }
}

#[test]
fn timeout_poll_timeout_reflects_shutdown_deadline_across_a_real_run() {
    let mut h = Harness::new(vec![Poll::Interrupted, Poll::Returns(PollOutcome::Timeout)], vec![]);

    run_test_server(
        after_handshake(TcpConnections::default()),
        &mut h,
        |_| true,
        IMMEDIATE_GRACE_PERIOD,
    )
    .expect("exits cleanly");

    assert_eq!(
        h.timeouts,
        [None, Some(0)],
        "No timeout before the interrupt, then a zero timeout once draining begins"
    );
    assert_eq!(h.writes.len(), 1, "Expected exactly one write");
    assert_eq!(decode_mock_pkt(&h.writes[0]), server(SERVER_ISN + 1, CLIENT_ISN + 1, TcpFlags::FinAck));
}

#[test]
fn shutdown_poll_timeout_reflects_shutdown_deadline_across_a_real_run() {
    let mut h = Harness::new(vec![Poll::Interrupted, Poll::Returns(PollOutcome::Timeout)], vec![]);

    run_test_server(
        after_handshake(test_new(0, 5)),
        &mut h,
        |_| true,
        IMMEDIATE_GRACE_PERIOD,
    )
    .expect("exits cleanly");

    assert_eq!(h.timeouts, [None, Some(0)]);
    assert_eq!(h.writes.len(), 1, "Expected exactly one write");
}

#[test]
fn stops_watching_the_shutdown_fd_once_draining_begins() {
    let mut h = Harness::new(
        vec![Poll::Returns(PollOutcome::Shutdown), Poll::Returns(PollOutcome::Timeout)],
        vec![],
    );

    run_test_server(
        after_handshake(TcpConnections::default()),
        &mut h,
        |_| true,
        IMMEDIATE_GRACE_PERIOD,
    )
    .expect("exits cleanly");

    assert_eq!(
        h.watched_shutdown,
        [true, false],
        "Should watch the shutdown fd before reacting to it, then stop once draining locally"
    );
}

#[test]
fn exits_once_connections_finish_closing() {
    let mut h = Harness::new(
        vec![Poll::Interrupted, Poll::Returns(PollOutcome::Readable)],
        vec![Read::Data(encode_mock_pkt(client(CLIENT_ISN + 1, SERVER_ISN + 2, TcpFlags::FinAck)))],
    );

    run_test_server(
        after_handshake(TcpConnections::default()),
        &mut h,
        |_| true,
        ONE_YEAR_GRACE_PERIOD,
    )
    .expect("exits cleanly");

    assert_eq!(h.poll_calls, 2, "Both poll calls should have been needed to exit");
    assert_eq!(h.writes.len(), 2, "The FIN-ACK and the final ACK should be written");
    assert_eq!(decode_mock_pkt(&h.writes[0]), server(SERVER_ISN + 1, CLIENT_ISN + 1, TcpFlags::FinAck));
    assert_eq!(decode_mock_pkt(&h.writes[1]), server(SERVER_ISN + 2, CLIENT_ISN + 2, TcpFlags::Ack));
}

#[test]
fn woken_without_any_interrupt_still_reacts_to_shutdown() {
    let mut h = Harness::new(vec![Poll::Returns(PollOutcome::Shutdown)], vec![]);

    run_test_server(TcpConnections::default(), &mut h, |_| true, ONE_YEAR_GRACE_PERIOD)
        .expect("exits cleanly");
}

#[test]
fn shutdown_is_noticed_right_after_handling_a_readable_packet() {
    let mut h = Harness::new(vec![Poll::Returns(PollOutcome::Both)], vec![Read::Data(vec![0u8; 5])]);

    run_test_server(TcpConnections::default(), &mut h, |_| true, ONE_YEAR_GRACE_PERIOD)
        .expect("exits cleanly");
}

#[test]
fn already_draining_reports_time_left() {
    let mut server = Server::new(Engine::new(RtoConfig::default(), 15, 10_000));
    server.engine.shutdown_deadline = Some(1_000 + 10_000);
    let reaction = server.react(LoopEvent::PollInterrupted { shutdown: true }, 1_000);
    assert!(matches!(
        reaction,
        Ok(Reaction::Shutdown { outcome: ShutdownOutcome::AlreadyDraining { time_left: 10_000 }, exit: false })
    ));
}

#[test]
fn no_established_connections_reports_no_connections() {
    let mut server = Server::new(Engine::new(RtoConfig::default(), 15, 10_000));
    let reaction = server.react(LoopEvent::PollInterrupted { shutdown: true }, 1_000);
    assert!(matches!(
        reaction,
        Ok(Reaction::Shutdown { outcome: ShutdownOutcome::NoConnections, exit: true })
    ));
}
