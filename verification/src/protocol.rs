pub mod display;
pub mod engine;
pub mod ping;
pub mod pseudo_header;
pub mod router;
pub mod tcp;
pub mod udp;

use crate::error::StackError;
use vstd::prelude::*;

verus! {

/// The IPv4 protocol numbers this stack handles.
#[derive(Clone, Copy, Debug, PartialEq, Eq, Structural)]
pub enum Protocol {
    Icmp,
    Tcp,
    Udp,
}

/// The IPv4 protocol number of `p`.
pub open spec fn protocol_number(p: Protocol) -> u8 {
    match p {
        Protocol::Icmp => 1,
        Protocol::Tcp => 6,
        Protocol::Udp => 17,
    }
}

/// The protocol with IPv4 protocol number `n`, if this stack handles it.
pub open spec fn protocol_from_number(n: u8) -> Option<Protocol> {
    if n == 1 {
        Some(Protocol::Icmp)
    } else if n == 6 {
        Some(Protocol::Tcp)
    } else if n == 17 {
        Some(Protocol::Udp)
    } else {
        None
    }
}

impl Protocol {
    /// The IPv4 protocol number.
    pub fn number(self) -> (r: u8)
        ensures
            r == protocol_number(self),
    {
        match self {
            Protocol::Icmp => 1,
            Protocol::Tcp => 6,
            Protocol::Udp => 17,
        }
    }

    /// The protocol with IPv4 protocol number `value`.
    pub fn try_from_number(value: u8) -> (r: Result<Protocol, StackError>)
        ensures
            (r matches Ok(p) ==> protocol_from_number(value) == Some(p)),
            (r matches Err(e) ==> e == (StackError::UnsupportedProtocol { protocol: value })),
            (r is Ok) == (protocol_from_number(value) is Some),
    {
        if value == 1 {
            Ok(Protocol::Icmp)
        } else if value == 6 {
            Ok(Protocol::Tcp)
        } else if value == 17 {
            Ok(Protocol::Udp)
        } else {
            Err(StackError::UnsupportedProtocol { protocol: value })
        }
    }
}

/// The name of `p`.
pub open spec fn protocol_text(p: Protocol) -> Seq<char> {
    match p {
        Protocol::Icmp => "ICMP"@,
        Protocol::Tcp => "TCP"@,
        Protocol::Udp => "UDP"@,
    }
}

impl Protocol {
    /// The name of the protocol (see `protocol_text`).
    pub fn name(self) -> (r: &'static str)
        ensures
            r@ == protocol_text(self),
    {
        match self {
            Protocol::Icmp => "ICMP",
            Protocol::Tcp => "TCP",
            Protocol::Udp => "UDP",
        }
    }
}

/// Every protocol number this stack produces reads back as the same protocol.
pub proof fn lemma_protocol_number_roundtrip(p: Protocol)
    ensures
        protocol_from_number(protocol_number(p)) == Some(p),
{
}

} // verus!
