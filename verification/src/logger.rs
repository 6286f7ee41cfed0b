use crate::config::{level_number, LogLevel};
use crate::ipv4_header::{ipv4_header_text, Ipv4Header};
use crate::protocol::display::{
    decimal, padded, payload_text, push_decimal, push_decimal_wide, push_padded,
};
use crate::protocol::engine::{IncomingExchange, ShutdownOutcome};
use crate::protocol::router::{router_payload, router_text, PrettyProtocol, ProtocolRouter};
use vstd::prelude::*;
use vstd::string::*;

verus! {

/// `ms` milliseconds as `hh:mm:ss.mmm` (hours keep growing past two digits).
pub open spec fn timestamp_text(ms: nat) -> Seq<char> {
    padded(ms / 3_600_000, 2) + seq![':'] + padded(ms / 60_000 % 60, 2) + seq![':'] + padded(
        ms / 1000 % 60,
        2,
    ) + seq!['.'] + padded(ms % 1000, 3)
}

/// `a - b`, or zero if `b` is later.
pub open spec fn elapsed(a: u64, b: u64) -> nat {
    if a >= b {
        (a - b) as nat
    } else {
        0
    }
}

/// Whether a level shows packet details (packet details and full output).
pub open spec fn shows_details(l: LogLevel) -> bool {
    level_number(l) >= 3
}

/// A visual divider between packet records: a space among packet indicators, a line of 80
/// dashes with packet details, nothing otherwise.
pub open spec fn divider_text(l: LogLevel) -> Seq<char> {
    if l == LogLevel::PktQuiet {
        " "@
    } else if shows_details(l) {
        "--------------------------------------------------------------------------------\n"@
    } else {
        Seq::empty()
    }
}

/// The lines describing one packet: the IPv4 header, the protocol message, and the payload (with
/// its content at full output).
pub open spec fn packet_lines(l: LogLevel, h: Ipv4Header, m: ProtocolRouter) -> Seq<char> {
    ipv4_header_text(h) + "\n"@ + router_text(m) + "\n"@ + payload_text(
        router_payload(m),
        l == LogLevel::PktFull,
    ) + "\n"@
}

/// What the server says about how it reacted to a shutdown signal: the time left (in seconds,
/// to the millisecond) if already draining, otherwise whether it is closing connections or
/// exiting at once.
pub open spec fn shutdown_note(o: ShutdownOutcome) -> Seq<char> {
    match o {
        ShutdownOutcome::AlreadyDraining { time_left } => "Draining connections, "@ + decimal(
            (time_left / 1000) as nat,
        ) + "."@ + padded((time_left % 1000) as nat, 3) + "s left"@,
        ShutdownOutcome::BeganDraining { .. } => "Shutdown signal received, closing established connections..."@,
        ShutdownOutcome::NoConnections => "Shutdown signal received with no established connections, exiting"@,
    }
}

/// What the server says when the grace period ends with `remaining` connections.
pub open spec fn grace_elapsed_note(remaining: usize) -> Seq<char> {
    "Grace period elapsed with "@ + decimal(remaining as nat) + " remaining connection(s), exiting"@
}

/// Decides what the server logs at its level of output: each method returns the text to print,
/// empty where the level shows nothing. Times are milliseconds on the caller's clock.
#[derive(Clone, Copy, Debug, PartialEq, Eq, Structural)]
pub struct Logger {
    /// The level of output for logging.
    pub level: LogLevel,
    /// When the logger was created.
    pub birth: u64,
    /// Which worker thread the logger belongs to.
    pub worker_id: usize,
}

impl Logger {
    /// The start of a timestamped line at `now`: `[w<worker> <timestamp>] `.
    pub open spec fn prefix(self, now: u64) -> Seq<char> {
        "[w"@ + decimal(self.worker_id as nat) + " "@ + timestamp_text(elapsed(now, self.birth)) + "] "@
    }

    /// A timestamped line with `msg` when `shown` holds, nothing otherwise.
    pub open spec fn line_if(self, shown: bool, msg: Seq<char>, now: u64) -> Seq<char> {
        if shown {
            self.prefix(now) + msg + "\n"@
        } else {
            Seq::empty()
        }
    }

    /// The mark of a packet received: an arrow among packet indicators, a timestamped line with
    /// packet details.
    pub open spec fn received_text(self, now: u64) -> Seq<char> {
        if self.level == LogLevel::PktQuiet {
            "↓"@
        } else {
            self.line_if(shows_details(self.level), "Packet received"@, now)
        }
    }

    /// The mark of a packet sent, noting a retransmission with packet details.
    pub open spec fn sent_text(self, retransmission: bool, now: u64) -> Seq<char> {
        if self.level == LogLevel::PktQuiet {
            "↑"@
        } else {
            self.line_if(
                shows_details(self.level),
                "Packet sent"@ + if retransmission {
                    " (retransmission)"@
                } else {
                    Seq::empty()
                },
                now,
            )
        }
    }

    /// The description of one packet, with packet details.
    pub open spec fn packet_text(self, h: Ipv4Header, m: ProtocolRouter) -> Seq<char> {
        if shows_details(self.level) {
            packet_lines(self.level, h, m)
        } else {
            Seq::empty()
        }
    }

    /// The record of an exchange at `now`: the incoming packet and the reply sent, if any,
    /// between dividers.
    pub open spec fn exchange_text(
        self,
        incoming_hdr: Ipv4Header,
        incoming: ProtocolRouter,
        reply: Option<(Ipv4Header, ProtocolRouter)>,
        now: u64,
    ) -> Seq<char> {
        divider_text(self.level) + self.received_text(now) + self.packet_text(incoming_hdr, incoming)
            + (if shows_details(self.level) {
            "\n"@
        } else {
            Seq::empty()
        }) + (match reply {
            None => if shows_details(self.level) {
                "<no reply>\n"@
            } else {
                Seq::empty()
            },
            Some((h, m)) => self.sent_text(false, now) + self.packet_text(h, m),
        }) + divider_text(self.level)
    }

    /// A logger at `level` for worker `worker_id`, created at `birth`.
    pub fn new(level: LogLevel, birth: u64, worker_id: usize) -> (r: Self)
        ensures
            r == (Logger { level, birth, worker_id }),
    {
        Logger { level, birth, worker_id }
    }

    /// The time since the logger was created, as `hh:mm:ss.mmm` (see `timestamp_text`).
    pub fn timestamp(&self, now: u64) -> (r: String)
        ensures
            r@ == timestamp_text(elapsed(now, self.birth)),
    {
        let ms = now.saturating_sub(self.birth);
        let mut s = String::new();
        proof {
            reveal_strlit(":");
            reveal_strlit(".");
        }
        push_padded(&mut s, ms / 3_600_000, 2);
        s.append(":");
        push_padded(&mut s, ms / 60_000 % 60, 2);
        s.append(":");
        push_padded(&mut s, ms / 1000 % 60, 2);
        s.append(".");
        push_padded(&mut s, ms % 1000, 3);
        assert(s@ =~= timestamp_text(elapsed(now, self.birth)));
        s
    }

    /// Appends the start of a timestamped line (see `prefix`).
    fn push_prefix(&self, s: &mut String, now: u64)
        ensures
            final(s)@ == old(s)@ + self.prefix(now),
    {
        let ghost start = s@;
        s.append("[w");
        push_decimal(s, self.worker_id as u64);
        s.append(" ");
        let ts = self.timestamp(now);
        s.append(ts.as_str());
        s.append("] ");
        assert(s@ =~= start + self.prefix(now));
    }

    /// A line about the server at `now`, if the level shows server information.
    pub fn server_info(&self, msg: &str, now: u64) -> (r: String)
        ensures
            r@ == self.line_if(level_number(self.level) >= 1, msg@, now),
    {
        let mut s = String::new();
        if self.level.allows(LogLevel::ServerInfo) {
            self.push_prefix(&mut s, now);
            s.append(msg);
            s.append("\n");
        }
        assert(s@ =~= self.line_if(level_number(self.level) >= 1, msg@, now));
        s
    }

    /// A bare newline from the server, without a timestamp, if the level shows server
    /// information.
    pub fn server_newline(&self) -> (r: String)
        ensures
            r@ == (if level_number(self.level) >= 1 {
                "\n"@
            } else {
                Seq::empty()
            }),
    {
        if self.level.allows(LogLevel::ServerInfo) {
            String::from_str("\n")
        } else {
            String::new()
        }
    }

    /// A line about an error handling a packet at `now`, if the level shows packet details.
    pub fn pkt_err(&self, msg: &str, now: u64) -> (r: String)
        ensures
            r@ == self.line_if(shows_details(self.level), msg@, now),
    {
        let mut s = String::new();
        if self.level.allows(LogLevel::PktDetails) {
            self.push_prefix(&mut s, now);
            s.append(msg);
            s.append("\n");
        }
        assert(s@ =~= self.line_if(shows_details(self.level), msg@, now));
        s
    }

    /// Whether packet-related information beyond the packets themselves is shown (from packet
    /// details up).
    pub fn pkt_extra(&self) -> (r: bool)
        ensures
            r == shows_details(self.level),
    {
        self.level.allows(LogLevel::PktDetails)
    }

    /// Appends the divider (see `divider_text`).
    fn push_divider(&self, s: &mut String)
        ensures
            final(s)@ == old(s)@ + divider_text(self.level),
    {
        if self.level == LogLevel::PktQuiet {
            s.append(" ");
        } else if self.level.allows(LogLevel::PktDetails) {
            s.append("--------------------------------------------------------------------------------\n");
        }
    }

    /// Appends the mark of a packet received (see `received_text`).
    fn push_received(&self, s: &mut String, now: u64)
        ensures
            final(s)@ == old(s)@ + self.received_text(now),
    {
        let ghost start = s@;
        if self.level == LogLevel::PktQuiet {
            s.append("↓");
        } else if self.level.allows(LogLevel::PktDetails) {
            self.push_prefix(s, now);
            s.append("Packet received");
            s.append("\n");
        }
        assert(s@ =~= start + self.received_text(now));
    }

    /// Appends the mark of a packet sent (see `sent_text`).
    fn push_sent(&self, s: &mut String, retransmission: bool, now: u64)
        ensures
            final(s)@ == old(s)@ + self.sent_text(retransmission, now),
    {
        let ghost start = s@;
        if self.level == LogLevel::PktQuiet {
            s.append("↑");
        } else if self.level.allows(LogLevel::PktDetails) {
            self.push_prefix(s, now);
            s.append("Packet sent");
            if retransmission {
                s.append(" (retransmission)");
            }
            s.append("\n");
        }
        assert(s@ =~= start + self.sent_text(retransmission, now));
    }

    /// Appends the description of one packet (see `packet_text`).
    fn push_packet(&self, s: &mut String, h: &Ipv4Header, m: &ProtocolRouter)
        ensures
            final(s)@ == old(s)@ + self.packet_text(*h, *m),
    {
        let ghost start = s@;
        if self.level.allows(LogLevel::PktDetails) {
            let hdr_line = h.to_text();
            s.append(hdr_line.as_str());
            s.append("\n");
            let msg_line = m.to_text();
            s.append(msg_line.as_str());
            s.append("\n");
            let payload = m.pretty_payload(self.level == LogLevel::PktFull).to_text();
            s.append(payload.as_str());
            s.append("\n");
        }
        assert(s@ =~= start + self.packet_text(*h, *m));
    }

    /// The record of an incoming packet and the reply sent, if any, at `now` (see
    /// `exchange_text`).
    pub fn exchange(
        &self,
        incoming: &IncomingExchange,
        reply: Option<(Ipv4Header, &ProtocolRouter)>,
        now: u64,
    ) -> (r: String)
        ensures
            r@ == self.exchange_text(
                incoming.ipv4_hdr,
                incoming.router,
                match reply {
                    None => None,
                    Some((h, m)) => Some((h, *m)),
                },
                now,
            ),
    {
        let mut s = String::new();
        self.push_divider(&mut s);
        self.push_received(&mut s, now);
        self.push_packet(&mut s, &incoming.ipv4_hdr, &incoming.router);
        if self.level.allows(LogLevel::PktDetails) {
            s.append("\n");
        }
        match reply {
            None => {
                if self.level.allows(LogLevel::PktDetails) {
                    s.append("<no reply>\n");
                }
            },
            Some((h, m)) => {
                self.push_sent(&mut s, false, now);
                self.push_packet(&mut s, &h, m);
            },
        }
        self.push_divider(&mut s);
        s
    }

    /// The record of a packet sent at `now` other than as a reply, noting a retransmission.
    pub fn non_reply_transmission(&self, h: Ipv4Header, m: &ProtocolRouter, retransmission: bool, now: u64) -> (r: String)
        ensures
            r@ == divider_text(self.level) + self.sent_text(retransmission, now) + self.packet_text(h, *m)
                + divider_text(self.level),
    {
        let mut s = String::new();
        self.push_divider(&mut s);
        self.push_sent(&mut s, retransmission, now);
        self.push_packet(&mut s, &h, m);
        self.push_divider(&mut s);
        s
    }

    /// The line saying the server is waiting on the device `tun_name` at `now`.
    pub fn waiting_info(&self, tun_name: &str, now: u64) -> (r: String)
        ensures
            r@ == self.line_if(
                level_number(self.level) >= 1,
                "Waiting for packets on TUN device "@ + tun_name@ + " (Ctrl+C to stop)"@,
                now,
            ),
    {
        let mut msg = String::from_str("Waiting for packets on TUN device ");
        msg.append(tun_name);
        msg.append(" (Ctrl+C to stop)");
        self.server_info(msg.as_str(), now)
    }

    /// The line saying how the server reacted to a shutdown signal at `now` (see `shutdown_note`).
    pub fn shutdown_info(&self, o: &ShutdownOutcome, now: u64) -> (r: String)
        ensures
            r@ == self.line_if(level_number(self.level) >= 1, shutdown_note(*o), now),
    {
        let msg = match o {
            ShutdownOutcome::AlreadyDraining { time_left } => {
                let mut m = String::from_str("Draining connections, ");
                push_decimal_wide(&mut m, *time_left / 1000);
                m.append(".");
                push_padded(&mut m, (*time_left % 1000) as u64, 3);
                m.append("s left");
                m
            },
            ShutdownOutcome::BeganDraining { .. } => String::from_str(
                "Shutdown signal received, closing established connections...",
            ),
            ShutdownOutcome::NoConnections => String::from_str(
                "Shutdown signal received with no established connections, exiting",
            ),
        };
        assert(msg@ =~= shutdown_note(*o));
        self.server_info(msg.as_str(), now)
    }

    /// The line saying the grace period ended at `now` with `remaining` connections.
    pub fn grace_elapsed_info(&self, remaining: usize, now: u64) -> (r: String)
        ensures
            r@ == self.line_if(level_number(self.level) >= 1, grace_elapsed_note(remaining), now),
    {
        let mut msg = String::from_str("Grace period elapsed with ");
        push_decimal(&mut msg, remaining as u64);
        msg.append(" remaining connection(s), exiting");
        assert(msg@ =~= grace_elapsed_note(remaining));
        self.server_info(msg.as_str(), now)
    }

    /// The line saying every connection closed within the grace period, at `now`.
    pub fn drained_info(&self, now: u64) -> (r: String)
        ensures
            r@ == self.line_if(
                level_number(self.level) >= 1,
                "All connections closed within grace period, exiting"@,
                now,
            ),
    {
        self.server_info("All connections closed within grace period, exiting", now)
    }
}

} // verus!
