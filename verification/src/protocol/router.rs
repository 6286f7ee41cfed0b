use crate::addr_pairs::Ipv4AddrPair;
use crate::application::ServerApp;
use crate::error::StackError;
use crate::protocol::ping::{
    echo_parse_error, echo_parsed, echo_reply_of, echo_write_outcome, EchoMsg,
};
use crate::protocol::tcp::connections::{
    decide_reply_spec, failed_table, key_of, opt_reply_fields, opt_seg_fields, TableView, TcpConnections,
};
use crate::protocol::tcp::state::SendInfoView;
use crate::protocol::tcp::{tcp_fields, tcp_parse_error, tcp_parsed_fields, tcp_write_outcome, TcpSegment};
use crate::protocol::udp::{udp_parse_error, udp_parsed, udp_reply_of, udp_write_outcome, UdpDatagram};
use crate::protocol::display::PrettyPayload;
use crate::protocol::ping::echo_text;
use crate::protocol::tcp::payload::payload_bytes;
use crate::protocol::tcp::tcp_segment_text;
use crate::protocol::udp::udp_text;
use crate::protocol::Protocol;
use vstd::prelude::*;

verus! {

/// Types that can be encoded into the bytes of an IPv4 payload.
pub trait Encode {
    /// Writes the protocol-specific header and payload into the start of `buf`, returning the
    /// number of bytes written.
    fn write_into(&self, buf: &mut [u8]) -> Result<u16, StackError>;

    /// The protocol of `self`.
    fn proto(&self) -> Protocol;

    /// The pair of IPv4 addresses `self` travels between.
    fn get_ip_pair(&self) -> Ipv4AddrPair;
}

/// Messages that can be described in one line, with a payload that can be described apart.
pub trait PrettyProtocol {
    /// The one-line description of the message.
    fn to_text(&self) -> String;

    /// The payload, to be described with or without its content.
    fn pretty_payload(&self, include_content: bool) -> PrettyPayload<'_>;
}

/// A parsed message of one of the supported protocols, for static dispatch over them.
#[derive(Debug, PartialEq, Eq)]
pub enum ProtocolRouter {
    Icmp(EchoMsg),
    Tcp(TcpSegment),
    Udp(UdpDatagram),
}

/// The first problem with parsing `data` as a message of `protocol` travelling between `ip_pair`,
/// if any.
pub open spec fn router_parse_error(data: Seq<u8>, protocol: Protocol, ip_pair: Ipv4AddrPair) -> Option<StackError> {
    match protocol {
        Protocol::Icmp => echo_parse_error(data),
        Protocol::Tcp => tcp_parse_error(data, ip_pair),
        Protocol::Udp => udp_parse_error(data, ip_pair),
    }
}

/// Whether `r` is what parsing `data` as a message of `protocol` travelling between `ip_pair`
/// gives.
pub open spec fn router_parsed(r: ProtocolRouter, data: Seq<u8>, protocol: Protocol, ip_pair: Ipv4AddrPair) -> bool {
    match (protocol, r) {
        (Protocol::Icmp, ProtocolRouter::Icmp(m)) => echo_parsed(m, data, ip_pair),
        (Protocol::Tcp, ProtocolRouter::Tcp(s)) => tcp_fields(s) == tcp_parsed_fields(data, ip_pair),
        (Protocol::Udp, ProtocolRouter::Udp(d)) => udp_parsed(d, data, ip_pair),
        _ => false,
    }
}

/// The protocol of `r`.
pub open spec fn router_proto(r: ProtocolRouter) -> Protocol {
    match r {
        ProtocolRouter::Icmp(_) => Protocol::Icmp,
        ProtocolRouter::Tcp(_) => Protocol::Tcp,
        ProtocolRouter::Udp(_) => Protocol::Udp,
    }
}

/// The address pair `r` travels between.
pub open spec fn router_ip_pair(r: ProtocolRouter) -> Ipv4AddrPair {
    match r {
        ProtocolRouter::Icmp(m) => m.ip_pair,
        ProtocolRouter::Tcp(s) => s.ip_pair,
        ProtocolRouter::Udp(d) => d.ip_pair,
    }
}

/// The outcome of writing `r` into the buffer `buf`: the bytes written and the buffer after, or
/// the error (with the buffer untouched).
pub open spec fn router_write_outcome(r: ProtocolRouter, buf: Seq<u8>) -> Result<(u16, Seq<u8>), StackError> {
    match r {
        ProtocolRouter::Icmp(m) => echo_write_outcome(m, buf),
        ProtocolRouter::Tcp(s) => tcp_write_outcome(s, buf),
        ProtocolRouter::Udp(d) => udp_write_outcome(d, buf),
    }
}

/// Whether `out` is the reply that `create_reply` gives to `r` with the connection table going
/// from `t` to `t2`, the server running `app`: echo requests and UDP datagrams are always answered
/// and leave the table alone; a TCP segment is answered as in `decide_reply_spec`.
pub open spec fn router_reply(r: ProtocolRouter, t: TableView, app: ServerApp, isn: u32, now: u64, out: Option<ProtocolRouter>, t2: TableView) -> bool {
    match r {
        ProtocolRouter::Icmp(m) => out matches Some(ProtocolRouter::Icmp(rep)) && echo_reply_of(rep, m)
            && t2 == t,
        ProtocolRouter::Udp(d) => out matches Some(ProtocolRouter::Udp(rep)) && udp_reply_of(rep, d, app)
            && t2 == t,
        ProtocolRouter::Tcp(s) => decide_reply_spec(t, tcp_fields(s), isn, now, app) matches Ok((reply, t3))
            && t3 == t2 && match out {
            None => reply is None,
            Some(ProtocolRouter::Tcp(rs)) => opt_seg_fields(Some(rs)) == opt_reply_fields(
                key_of(tcp_fields(s)),
                reply,
            ),
            _ => false,
        },
    }
}

/// The error, if any, that `create_reply` meets on `r` with the connection table `t`.
pub open spec fn router_reply_error(r: ProtocolRouter, t: TableView, app: ServerApp, isn: u32, now: u64) -> Option<StackError> {
    match r {
        ProtocolRouter::Tcp(s) => match decide_reply_spec(t, tcp_fields(s), isn, now, app) {
            Err(e) => Some(e),
            Ok(_) => None,
        },
        _ => None,
    }
}

impl ProtocolRouter {
    /// Parses `data` as the header and payload of a message of `protocol` travelling between
    /// `ip_pair`.
    pub fn parse(data: &[u8], protocol: Protocol, ip_pair: Ipv4AddrPair) -> (r: Result<ProtocolRouter, StackError>)
        ensures
            (r is Ok) == (router_parse_error(data@, protocol, ip_pair) is None),
            (r matches Err(e) ==> router_parse_error(data@, protocol, ip_pair) == Some(e)),
            (r matches Ok(router) ==> router_parsed(router, data@, protocol, ip_pair)),
    {
        match protocol {
            Protocol::Icmp => match EchoMsg::parse(data, ip_pair) {
                Ok(m) => Ok(ProtocolRouter::Icmp(m)),
                Err(e) => Err(e),
            },
            Protocol::Tcp => match TcpSegment::parse(data, ip_pair) {
                Ok(s) => Ok(ProtocolRouter::Tcp(s)),
                Err(e) => Err(e),
            },
            Protocol::Udp => match UdpDatagram::parse(data, ip_pair) {
                Ok(d) => Ok(ProtocolRouter::Udp(d)),
                Err(e) => Err(e),
            },
        }
    }

    /// Creates the reply to `self`, or `Ok(None)` for no reply (see `router_reply`), with `app`
    /// answering the payloads. Only TCP keeps state, in `tcp_connections`; a SYN for a new
    /// connection gets `isn` as the initial sequence number, and `now` is when any segment sent is
    /// recorded as sent.
    pub fn create_reply(&self, tcp_connections: &mut TcpConnections, app: ServerApp, isn: u32, now: u64) -> (r: Result<Option<ProtocolRouter>, StackError>)
        requires
            old(tcp_connections).wf(),
        ensures
            final(tcp_connections).wf(),
            final(tcp_connections).rto == old(tcp_connections).rto,
            final(tcp_connections).max_retries == old(tcp_connections).max_retries,
            (r is Err) == (router_reply_error(*self, old(tcp_connections).table(), app, isn, now) is Some),
            (r matches Err(e) ==> router_reply_error(*self, old(tcp_connections).table(), app, isn, now)
                == Some(e)),
            (r is Err ==> (*self matches ProtocolRouter::Tcp(seg) && final(tcp_connections).table()
                == failed_table(old(tcp_connections).table(), tcp_fields(seg), now))),
            (r matches Ok(out) ==> router_reply(
                *self,
                old(tcp_connections).table(),
                app,
                isn,
                now,
                out,
                final(tcp_connections).table(),
            )),
    {
        match self {
            ProtocolRouter::Icmp(m) => Ok(Some(ProtocolRouter::Icmp(m.create_reply()))),
            // TCP is the only one that's actually optional or fallible
            ProtocolRouter::Tcp(seg) => match seg.create_reply(tcp_connections, app, isn, now) {
                Ok(Some(reply)) => Ok(Some(ProtocolRouter::Tcp(reply))),
                Ok(None) => Ok(None),
                Err(e) => Err(e),
            },
            ProtocolRouter::Udp(d) => Ok(Some(ProtocolRouter::Udp(d.create_reply(app)))),
        }
    }
}

impl Encode for ProtocolRouter {
    fn write_into(&self, buf: &mut [u8]) -> (r: Result<u16, StackError>)
        ensures
            (match r {
                Ok(n) => router_write_outcome(*self, old(buf)@) == Ok::<_, StackError>((n, final(buf)@)),
                Err(e) => router_write_outcome(*self, old(buf)@) == Err::<(u16, Seq<u8>), _>(e),
            }),
    {
        match self {
            ProtocolRouter::Icmp(m) => m.write_into(buf),
            ProtocolRouter::Tcp(s) => s.write_into(buf),
            ProtocolRouter::Udp(d) => d.write_into(buf),
        }
    }

    fn proto(&self) -> (r: Protocol)
        ensures
            r == router_proto(*self),
    {
        match self {
            ProtocolRouter::Icmp(_) => Protocol::Icmp,
            ProtocolRouter::Tcp(_) => Protocol::Tcp,
            ProtocolRouter::Udp(_) => Protocol::Udp,
        }
    }

    fn get_ip_pair(&self) -> (r: Ipv4AddrPair)
        ensures
            r == router_ip_pair(*self),
    {
        match self {
            ProtocolRouter::Icmp(m) => m.ip_pair,
            ProtocolRouter::Tcp(s) => s.ip_pair,
            ProtocolRouter::Udp(d) => d.ip_pair,
        }
    }
}

/// The one-line description of `r`.
pub open spec fn router_text(r: ProtocolRouter) -> Seq<char> {
    match r {
        ProtocolRouter::Icmp(m) => echo_text(m),
        ProtocolRouter::Tcp(s) => tcp_segment_text(s),
        ProtocolRouter::Udp(d) => udp_text(d),
    }
}

/// The payload that `r` carries.
pub open spec fn router_payload(r: ProtocolRouter) -> Seq<u8> {
    match r {
        ProtocolRouter::Icmp(m) => m.payload@,
        ProtocolRouter::Tcp(s) => payload_bytes(s.payload),
        ProtocolRouter::Udp(d) => d.payload@,
    }
}

impl PrettyProtocol for ProtocolRouter {
    fn to_text(&self) -> (r: String)
        ensures
            r@ == router_text(*self),
    {
        match self {
            ProtocolRouter::Icmp(m) => m.to_text(),
            ProtocolRouter::Tcp(s) => s.to_text(),
            ProtocolRouter::Udp(d) => d.to_text(),
        }
    }

    fn pretty_payload(&self, include_content: bool) -> (r: PrettyPayload<'_>)
        ensures
            r.data@ == router_payload(*self),
            r.include_content == include_content,
    {
        match self {
            ProtocolRouter::Icmp(m) => m.pretty_payload(include_content),
            ProtocolRouter::Tcp(s) => s.pretty_payload(include_content),
            ProtocolRouter::Udp(d) => d.pretty_payload(include_content),
        }
    }
}

} // verus!
