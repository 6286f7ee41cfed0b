use crate::application::ServerApp;
use crate::error::StackError;
use crate::ipv4_header::{ipv4_parse_result, Ipv4Header};
use crate::ipv4_header::ipv4_header_bytes;
use crate::protocol::router::{
    router_ip_pair, router_parse_error, router_parsed, router_proto, router_reply,
    router_write_outcome, Encode, ProtocolRouter,
};
use crate::protocol::tcp::connections::{
    close_table, closing_segments, decide_reply_spec, failed_table, earlier, is_closing, retransmit_spec,
    segs_fields, table_min_deadline, RtoConfig, TableView, TcpConnections,
};
use crate::protocol::tcp::{tcp_parsed_fields, TcpFields, TcpSegment};
use crate::protocol::Protocol;
use vstd::prelude::*;

verus! {

/// A parsed incoming IPv4 header and the protocol-specific message it carries.
#[derive(Debug)]
pub struct IncomingExchange {
    pub ipv4_hdr: Ipv4Header,
    pub router: ProtocolRouter,
}

/// The result of handling one incoming packet: the packet itself, parsed, and the reply if one is
/// required.
#[derive(Debug)]
pub struct PacketOutcome {
    pub incoming: IncomingExchange,
    pub reply: Option<ProtocolRouter>,
}

/// The result of deciding how to react to a shutdown signal.
#[derive(Debug, PartialEq, Eq)]
pub enum ShutdownOutcome {
    /// A previous call already started draining, with `time_left` milliseconds until the deadline.
    AlreadyDraining { time_left: u128 },
    /// This call started the active close, and at least one connection is still closing.
    BeganDraining { to_send: Vec<TcpSegment> },
    /// This call started the active close, but no connection needed to finish closing.
    NoConnections,
}

/// Owns all protocol state (the TCP connections) and decision logic, independent of any I/O.
/// Callers feed in incoming packets and timer and shutdown events, read and write the bytes, and
/// keep the clock: every instant here is in milliseconds on the caller's clock.
#[derive(Debug)]
pub struct Engine {
    /// The application that answers what the clients send.
    pub app: ServerApp,
    pub tcp_connections: TcpConnections,
    /// How long to wait for closing connections after a shutdown signal, in milliseconds.
    pub shutdown_grace_period: u128,
    /// When to give up waiting for closing connections; set once a shutdown signal starts the
    /// active close.
    pub shutdown_deadline: Option<u128>,
}

/// The error, if any, that handling the packet `data` meets with the connection table `t`: a
/// packet whose IPv4 header or protocol message does not parse is skipped, and a TCP segment whose
/// reply cannot be decided fails creating it.
pub open spec fn packet_error(data: Seq<u8>, t: TableView, app: ServerApp, isn: u32, now: u64) -> Option<StackError> {
    match ipv4_parse_result(data) {
        Err(e) => Some(StackError::SkippingPacket(Box::new(e))),
        Ok((h, p)) => match router_parse_error(p, h.protocol, h.ip_pair) {
            Some(e) => Some(StackError::SkippingPacket(Box::new(e))),
            None => match h.protocol {
                Protocol::Tcp => match decide_reply_spec(t, tcp_parsed_fields(p, h.ip_pair), isn, now, app) {
                    Err(e) => Some(StackError::CreatingReply(Box::new(e))),
                    Ok(_) => None,
                },
                _ => None,
            },
        },
    }
}

/// `a - b`, or zero if `b` is later.
pub open spec fn time_until(a: int, b: int) -> int {
    if a >= b {
        a - b
    } else {
        0
    }
}

/// The optional deadline as an integer.
pub open spec fn opt_int(o: Option<u128>) -> Option<int> {
    match o {
        None => None,
        Some(d) => Some(d as int),
    }
}

/// A shutdown outcome as plain values.
pub enum ShutdownView {
    AlreadyDraining(u128),
    BeganDraining(Seq<TcpFields>),
    NoConnections,
}

/// The view of the result of `handle_shutdown`.
pub open spec fn shutdown_view(r: Result<ShutdownOutcome, StackError>) -> Result<ShutdownView, StackError> {
    match r {
        Err(e) => Err(e),
        Ok(ShutdownOutcome::AlreadyDraining { time_left }) => Ok(ShutdownView::AlreadyDraining(time_left)),
        Ok(ShutdownOutcome::BeganDraining { to_send }) => Ok(ShutdownView::BeganDraining(segs_fields(to_send@))),
        Ok(ShutdownOutcome::NoConnections) => Ok(ShutdownView::NoConnections),
    }
}

/// The latest instant, in milliseconds, whose whole seconds still fit the signed 64-bit seconds
/// of the clock; a deadline past it cannot be represented.
pub const MAX_DEADLINE_MS: u128 = 9_223_372_036_854_775_807_999;

/// How a shutdown signal at `now` plays out on the table `t` with grace period `grace` and the
/// optional deadline of a shutdown already under way: the outcome, the table after, and the
/// deadline after. A second signal reports the time left and changes nothing. A first one
/// actively closes every ESTABLISHED connection; if a connection is then closing, the deadline
/// is set one grace period from now (an error if that is past `MAX_DEADLINE_MS`) and the
/// FIN-ACKs are sent;
/// otherwise nothing is left to wait for.
pub open spec fn shutdown_spec(t: TableView, grace: u128, deadline: Option<u128>, now: u64) -> (Result<ShutdownView, StackError>, TableView, Option<u128>) {
    match deadline {
        Some(d) => (Ok(ShutdownView::AlreadyDraining(time_until(d as int, now as int) as u128)), t, deadline),
        None => {
            let t2 = close_table(t, now);
            if !(exists|i: int| 0 <= i < t2.len() && is_closing(#[trigger] t2[i].1.tcp_state)) {
                (Ok(ShutdownView::NoConnections), t2, None)
            } else if now + grace > MAX_DEADLINE_MS {
                (Err(StackError::Overflowed), t2, None)
            } else {
                (
                    Ok(ShutdownView::BeganDraining(closing_segments(t))),
                    t2,
                    Some((now + grace) as u128),
                )
            }
        },
    }
}

/// Once a shutdown signal has started draining, another one (at any later or earlier time) only
/// reports the time left until the deadline: nothing is sent again and nothing changes.
pub proof fn lemma_second_shutdown_only_reports_time_left(t: TableView, grace: u128, first: u64, second: u64)
    requires
        shutdown_spec(t, grace, None, first).0 matches Ok(ShutdownView::BeganDraining(_)),
    ensures
        ({
            let (_, t1, d1) = shutdown_spec(t, grace, None, first);
            shutdown_spec(t1, grace, d1, second) == (
                Ok::<_, StackError>(
                    ShutdownView::AlreadyDraining(time_until(first + grace, second as int) as u128),
                ),
                t1,
                d1,
            )
        }),
{
}

impl Engine {
    /// Well-formedness: the connection table is well formed.
    pub open spec fn wf(&self) -> bool {
        self.tcp_connections.wf()
    }

    /// The time left at `now` until the earlier of the shutdown deadline and the next
    /// retransmission deadline (zero if already past), or `None` when neither is set.
    pub open spec fn poll_timeout_spec(&self, now: u64) -> Option<u128> {
        match earlier(
            opt_int(self.shutdown_deadline),
            table_min_deadline(self.tcp_connections.table(), self.tcp_connections.rto),
        ) {
            None => None,
            Some(d) => Some(time_until(d, now as int) as u128),
        }
    }

    /// An echoing engine with no connections and no shutdown under way.
    pub fn new(rto_config: RtoConfig, max_retries: u8, shutdown_grace_period: u128) -> (r: Self)
        ensures
            r.wf(),
            r.app == ServerApp::Echo,
            r.tcp_connections.table() == Seq::<(crate::protocol::tcp::connections::ConnKey, crate::protocol::tcp::state::ConnView)>::empty(),
            r.tcp_connections.rto == rto_config,
            r.tcp_connections.max_retries == max_retries,
            r.shutdown_grace_period == shutdown_grace_period,
            r.shutdown_deadline is None,
    {
        Engine::with_app(ServerApp::Echo, rto_config, max_retries, shutdown_grace_period)
    }

    /// An engine running `app`, with no connections and no shutdown under way.
    pub fn with_app(app: ServerApp, rto_config: RtoConfig, max_retries: u8, shutdown_grace_period: u128) -> (r: Self)
        ensures
            r.wf(),
            r.app == app,
            r.tcp_connections.table() == Seq::<(crate::protocol::tcp::connections::ConnKey, crate::protocol::tcp::state::ConnView)>::empty(),
            r.tcp_connections.rto == rto_config,
            r.tcp_connections.max_retries == max_retries,
            r.shutdown_grace_period == shutdown_grace_period,
            r.shutdown_deadline is None,
    {
        Engine {
            app,
            tcp_connections: TcpConnections::new(rto_config, max_retries),
            shutdown_grace_period,
            shutdown_deadline: None,
        }
    }

    /// The number of tracked connections (TCP is the only protocol with state).
    pub fn connection_count(&self) -> (r: usize)
        ensures
            r == self.tcp_connections.table().len(),
    {
        self.tcp_connections.len()
    }

    /// Parses `data` as an IPv4 packet and its protocol-specific message, and decides the reply
    /// (see `packet_error` for the errors): returns the packet parsed and the reply if one is
    /// required. A SYN for a new connection gets `isn` as its initial sequence number.
    pub fn handle_packet(&mut self, data: &[u8], isn: u32, now: u64) -> (r: Result<PacketOutcome, StackError>)
        requires
            old(self).wf(),
        ensures
            final(self).wf(),
            final(self).shutdown_deadline == old(self).shutdown_deadline,
            final(self).shutdown_grace_period == old(self).shutdown_grace_period,
            final(self).app == old(self).app,
            final(self).tcp_connections.rto == old(self).tcp_connections.rto,
            final(self).tcp_connections.max_retries == old(self).tcp_connections.max_retries,
            (r is Err) == (packet_error(data@, old(self).tcp_connections.table(), old(self).app, isn, now) is Some),
            (r matches Err(e) ==> packet_error(data@, old(self).tcp_connections.table(), old(self).app, isn, now)
                == Some(e)),
            (r matches Err(e) ==> e is SkippingPacket ==> final(self).tcp_connections.table()
                == old(self).tcp_connections.table()),
            (r matches Err(e) ==> e is CreatingReply ==> (ipv4_parse_result(data@) matches Ok((h, p))
                && final(self).tcp_connections.table() == failed_table(
                old(self).tcp_connections.table(),
                tcp_parsed_fields(p, h.ip_pair),
                now,
            ))),
            (r matches Ok(o) ==> ipv4_parse_result(data@) matches Ok((h, p)) && o.incoming.ipv4_hdr
                == h && router_parsed(o.incoming.router, p, h.protocol, h.ip_pair) && router_reply(
                o.incoming.router,
                old(self).tcp_connections.table(),
                old(self).app,
                isn,
                now,
                o.reply,
                final(self).tcp_connections.table(),
            )),
    {
        let (ipv4_hdr, ipv4_payload) = match Ipv4Header::parse(data) {
            Ok(parsed) => parsed,
            Err(e) => return Err(StackError::SkippingPacket(Box::new(e))),
        };
        let router = match ProtocolRouter::parse(ipv4_payload, ipv4_hdr.protocol, ipv4_hdr.ip_pair) {
            Ok(r) => r,
            Err(e) => return Err(StackError::SkippingPacket(Box::new(e))),
        };
        let reply = match router.create_reply(&mut self.tcp_connections, self.app, isn, now) {
            Ok(reply) => reply,
            Err(e) => return Err(StackError::CreatingReply(Box::new(e))),
        };
        Ok(PacketOutcome { incoming: IncomingExchange { ipv4_hdr, router }, reply })
    }

    /// Returns all segments due for retransmission at `now`, updating their retry counts and
    /// send times or dropping a connection whose retries are exhausted (see `retransmit_spec`).
    pub fn make_retransmissions(&mut self, now: u64) -> (r: Vec<TcpSegment>)
        requires
            old(self).wf(),
        ensures
            final(self).wf(),
            final(self).shutdown_deadline == old(self).shutdown_deadline,
            final(self).shutdown_grace_period == old(self).shutdown_grace_period,
            final(self).app == old(self).app,
            final(self).tcp_connections.rto == old(self).tcp_connections.rto,
            final(self).tcp_connections.max_retries == old(self).tcp_connections.max_retries,
            (final(self).tcp_connections.table(), segs_fields(r@)) == retransmit_spec(
                old(self).tcp_connections.table(),
                old(self).tcp_connections.rto,
                old(self).tcp_connections.max_retries,
                now,
            ),
    {
        self.tcp_connections.make_retransmissions(now)
    }

    /// Decides how to react to a shutdown signal at `now`. If a shutdown is already under way,
    /// reports the time left until its deadline and changes nothing. Otherwise actively closes
    /// every ESTABLISHED connection; if any connection is then closing, the deadline is set one
    /// grace period from now (an error if that overflows, the connections being closed all the
    /// same) and the FIN-ACKs are returned to be sent; if none is, nothing is left to wait for.
    pub fn handle_shutdown(&mut self, now: u64) -> (r: Result<ShutdownOutcome, StackError>)
        requires
            old(self).wf(),
        ensures
            final(self).wf(),
            final(self).shutdown_grace_period == old(self).shutdown_grace_period,
            final(self).app == old(self).app,
            final(self).tcp_connections.rto == old(self).tcp_connections.rto,
            final(self).tcp_connections.max_retries == old(self).tcp_connections.max_retries,
            (shutdown_view(r), final(self).tcp_connections.table(), final(self).shutdown_deadline)
                == shutdown_spec(
                old(self).tcp_connections.table(),
                old(self).shutdown_grace_period,
                old(self).shutdown_deadline,
                now,
            ),
    {
        match self.shutdown_deadline {
            Some(deadline) => {
                return Ok(
                    ShutdownOutcome::AlreadyDraining {
                        time_left: deadline.saturating_sub(now as u128),
                    },
                );
            },
            None => {},
        }
        let to_send = self.tcp_connections.close_established(now);
        if self.tcp_connections.closing_in_progress() {
            if self.shutdown_grace_period > MAX_DEADLINE_MS - now as u128 {
                Err(StackError::Overflowed)
            } else {
                self.shutdown_deadline = Some(now as u128 + self.shutdown_grace_period);
                Ok(ShutdownOutcome::BeganDraining { to_send })
            }
        } else {
            Ok(ShutdownOutcome::NoConnections)
        }
    }

    /// How long to block when polling at `now`: the time left until the earlier of the shutdown
    /// deadline and the next retransmission deadline (zero if already past), or `None` to block
    /// indefinitely when neither is set.
    pub fn poll_timeout(&self, now: u64) -> (r: Option<u128>)
        ensures
            r == self.poll_timeout_spec(now),
    {
        let next = match self.tcp_connections.next_retransmit_deadline() {
            None => None,
            Some(d) => Some(d as u128),
        };
        let deadline = match (self.shutdown_deadline, next) {
            (None, _) => next,
            (_, None) => self.shutdown_deadline,
            (Some(a), Some(b)) => Some(
                if a <= b {
                    a
                } else {
                    b
                },
            ),
        };
        match deadline {
            None => None,
            Some(d) => Some(d.saturating_sub(now as u128)),
        }
    }

    /// Whether `now` has reached the shutdown deadline; `false` when there is none.
    pub fn grace_period_elapsed(&self, now: u64) -> (r: bool)
        ensures
            r == (self.shutdown_deadline matches Some(d) && d <= now),
    {
        match self.shutdown_deadline {
            Some(deadline) => deadline <= now as u128,
            None => false,
        }
    }

    /// Whether a shutdown is under way and no connection is still closing.
    pub fn draining_complete(&self) -> (r: bool)
        ensures
            r == (self.shutdown_deadline is Some && !(exists|i: int|
                0 <= i < self.tcp_connections.table().len() && is_closing(
                    #[trigger] self.tcp_connections.table()[i].1.tcp_state,
                ))),
    {
        self.shutdown_deadline.is_some() && !self.tcp_connections.closing_in_progress()
    }
}


/// The room left for the protocol-specific header and payload in an Ethernet-sized packet after
/// the IPv4 header.
pub const MAX_IPV4_PAYLOAD_LEN: usize = 1480;

/// The bytes of the IPv4 packet carrying `out`, or the error met writing it: its message is
/// written into room for `MAX_IPV4_PAYLOAD_LEN` bytes, then prefixed with an IPv4 header for that
/// many bytes.
pub open spec fn packet_bytes(out: ProtocolRouter) -> Result<Seq<u8>, StackError> {
    match router_write_outcome(out, Seq::new(1480, |i: int| 0u8)) {
        Err(e) => Err(e),
        Ok((n, buf)) => Ok(
            ipv4_header_bytes(
                Ipv4Header {
                    total_len: (n + 20) as u16,
                    protocol: router_proto(out),
                    ip_pair: router_ip_pair(out),
                },
            ) + buf.subrange(0, n as int),
        ),
    }
}

/// An outgoing IPv4 packet: its header and all its bytes.
#[derive(Debug)]
pub struct EncodedPacket {
    pub header: Ipv4Header,
    pub bytes: Vec<u8>,
}

/// Encodes `out` as a whole IPv4 packet, ready to be written to the device (see `packet_bytes`),
/// with the header it was given: the protocol and addresses of `out`, and the packet's length.
#[verifier::spinoff_prover]
#[verifier::rlimit(30)]
pub fn encode_packet(out: &ProtocolRouter) -> (r: Result<EncodedPacket, StackError>)
    ensures
        (match r {
            Ok(p) => packet_bytes(*out) == Ok::<_, StackError>(p.bytes@) && p.header == (Ipv4Header {
                total_len: p.bytes@.len() as u16,
                protocol: router_proto(*out),
                ip_pair: router_ip_pair(*out),
            }),
            Err(e) => packet_bytes(*out) == Err::<Seq<u8>, _>(e),
        }),
{
    let mut body: Vec<u8> = vec![0u8; MAX_IPV4_PAYLOAD_LEN];
    assert(body@ =~= Seq::new(1480, |i: int| 0u8));
    let proto_len = match out.write_into(body.as_mut_slice()) {
        Ok(n) => n,
        Err(e) => return Err(e),
    };
    let hdr = match Ipv4Header::try_new(out.proto(), out.get_ip_pair(), proto_len) {
        Ok(h) => h,
        Err(e) => return Err(e),
    };
    let mut packet: Vec<u8> = vec![0u8; 20];
    hdr.write_into(packet.as_mut_slice());
    assert(packet@ =~= ipv4_header_bytes(hdr));
    let mut i: usize = 0;
    let n = proto_len as usize;
    let ghost start = packet@;
    while i < n
        invariant
            i <= n,
            n <= body@.len(),
            packet@ =~= start + body@.subrange(0, i as int),
        decreases n - i,
    {
        packet.push(body[i]);
        i = i + 1;
    }
    Ok(EncodedPacket { header: hdr, bytes: packet })
}

} // verus!
