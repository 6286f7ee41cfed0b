use crate::config::ConfigVar;
use crate::protocol::display::{decimal, push_decimal};
use vstd::string::*;
use vstd::prelude::*;

verus! {

/// Everything that can go wrong while parsing, handling, or encoding a packet.
#[derive(Debug, PartialEq, Eq)]
pub enum StackError {
    /// Fewer bytes than a minimal (20-byte) IPv4 header.
    TooShortForIpv4Header { len: usize },
    /// The version nibble says IPv6.
    Ipv6Packet,
    /// The version nibble is neither 4 nor 6.
    UnexpectedIpVersion { version: u8 },
    /// The IPv4 header checksum does not verify.
    InvalidIpv4Checksum,
    /// The IPv4 protocol number is not ICMP, TCP, or UDP.
    UnsupportedProtocol { protocol: u8 },
    /// The IHL field points past the end of the packet.
    Ipv4DataShorterThanIhl,
    /// An addition overflowed its integer type.
    Overflowed,
    /// An index fell outside a buffer of `len` bytes.
    IndexOutOfRange { index: usize, len: usize },
    /// The range `start..end` fell outside a buffer of `len` bytes.
    RangeOutOfRange { start: usize, end: usize, len: usize },
    /// A length did not fit the integer type it had to be converted to.
    IntegerConversion,
    /// Fewer bytes than a minimal (20-byte) TCP header.
    TooShortForTcpHeader { len: usize },
    /// The TCP checksum does not verify.
    InvalidTcpChecksum,
    /// The ACK, RST, SYN, and FIN bits form a combination this stack does not handle.
    InvalidTcpFlags { bits: u8 },
    /// A TCP payload longer than `u16::MAX` bytes.
    PayloadTooLong,
    /// A connection was to be created from a segment other than a SYN-ACK.
    NotSynAck,
    /// SND.UNA did not precede or equal SND.NXT.
    UnackedPastNext,
    /// Fewer bytes than an ICMP echo header.
    TooShortForEchoHeader { len: usize },
    /// The ICMP checksum does not verify.
    InvalidEchoChecksum,
    /// An ICMP message other than an echo request.
    NotEchoRequest { msg_type: u8, code: u8 },
    /// Fewer bytes than a UDP header.
    TooShortForUdpHeader { len: usize },
    /// The UDP length field disagrees with the datagram.
    InvalidUdpLength { field: u16 },
    /// The UDP checksum does not verify.
    InvalidUdpChecksum,
    /// A log level other than one digit from 0 to 4.
    InvalidLogLevel,
    /// A server application other than `echo` or `shout`.
    InvalidServerApp,
    /// A configuration variable was set to a value that does not parse.
    UnparsableConfigVar { var: ConfigVar },
    /// An incoming packet could not be parsed, so it was skipped.
    SkippingPacket(Box<StackError>),
    /// A reply to an incoming packet could not be created.
    CreatingReply(Box<StackError>),
}

/// `b` as text.
pub open spec fn bool_text(b: bool) -> Seq<char> {
    if b {
        "true"@
    } else {
        "false"@
    }
}

/// The environment variable that sets `v`.
pub open spec fn config_var_key(v: ConfigVar) -> Seq<char> {
    match v {
        ConfigVar::TunName => "TYPENET_TUN_NAME"@,
        ConfigVar::WorkerCount => "TYPENET_WORKER_COUNT"@,
        ConfigVar::App => "TYPENET_APP"@,
        ConfigVar::InitRtoMillis => "TYPENET_INIT_RTO_MILLIS"@,
        ConfigVar::MaxRetransmits => "TYPENET_MAX_RETRANSMITS"@,
        ConfigVar::GraceSecs => "TYPENET_GRACE_SECS"@,
        ConfigVar::LogLevel => "TYPENET_LOG_LEVEL"@,
    }
}

/// ` out of range on `[u8]` of length <len>`.
pub open spec fn out_of_range_text(len: usize) -> Seq<char> {
    " out of range on `[u8]` of length "@ + decimal(len as nat)
}

/// Appends ` out of range on `[u8]` of length <len>`.
fn push_out_of_range(s: &mut String, len: usize)
    ensures
        final(s)@ == old(s)@ + out_of_range_text(len),
{
    let ghost start = s@;
    s.append(" out of range on `[u8]` of length ");
    push_decimal(s, len as u64);
    assert(s@ =~= start + out_of_range_text(len));
}

/// `(<len> bytes)`.
pub open spec fn bytes_text(len: usize) -> Seq<char> {
    " ("@ + decimal(len as nat) + " bytes)"@
}

/// The human-readable description of `e`, with the values it carries; a skipped packet or a
/// failed reply is described by its reason after a prefix.
pub open spec fn error_text(e: StackError) -> Seq<char>
    decreases e,
{
    match e {
        StackError::TooShortForIpv4Header { len } => "Too short for IPv4 header"@ + bytes_text(len),
        StackError::Ipv6Packet => "IPv6 packet"@,
        StackError::UnexpectedIpVersion { version } => "Unexpected IP version "@ + decimal(version as nat),
        StackError::InvalidIpv4Checksum => "Invalid IPv4 header checksum"@,
        StackError::UnsupportedProtocol { protocol } => "Unsupported protocol "@ + decimal(protocol as nat),
        StackError::Ipv4DataShorterThanIhl => "IPv4 data shorter than its IHL"@,
        StackError::Overflowed => "Overflowed while adding"@,
        StackError::IndexOutOfRange { index, len } => "Index "@ + decimal(index as nat)
            + out_of_range_text(len),
        StackError::RangeOutOfRange { start, end, len } => "Index "@ + decimal(start as nat) + ".."@
            + decimal(end as nat) + out_of_range_text(len),
        StackError::IntegerConversion => "Integer conversion error: out of range integral type conversion attempted"@,
        StackError::TooShortForTcpHeader { len } => "Too short for TCP header"@ + bytes_text(len),
        StackError::InvalidTcpChecksum => "Invalid TCP checksum"@,
        StackError::InvalidTcpFlags { bits } => "Invalid TCP flag combination: ACK="@ + bool_text(
            bits & 0x10 != 0,
        ) + " RST="@ + bool_text(bits & 0x04 != 0) + " SYN="@ + bool_text(bits & 0x02 != 0) + " FIN="@
            + bool_text(bits & 0x01 != 0),
        StackError::PayloadTooLong => "Attempted to create a `TcpPayload` from data longer than `u16::MAX`"@,
        StackError::NotSynAck => "Attempted to create a new `ConnState` when sending something other than SYN-ACK"@,
        StackError::UnackedPastNext => "SND.UNA does not precede or equal SND.NXT"@,
        StackError::TooShortForEchoHeader { len } => "Too short for ICMP header"@ + bytes_text(len),
        StackError::InvalidEchoChecksum => "Invalid ICMP checksum"@,
        StackError::NotEchoRequest { msg_type, code } => "Unsupported ICMP message (not an echo request): type "@
            + decimal(msg_type as nat) + " code "@ + decimal(code as nat),
        StackError::TooShortForUdpHeader { len } => "Too short for UDP header"@ + bytes_text(len),
        StackError::InvalidUdpLength { field } => "Invalid UDP length "@ + decimal(field as nat),
        StackError::InvalidUdpChecksum => "Invalid UDP checksum"@,
        StackError::InvalidLogLevel => "Log level must be a digit between 0 and 4 inclusive"@,
        StackError::InvalidServerApp => "Server app must be either `echo` or `shout`"@,
        StackError::UnparsableConfigVar { var } => "Environment variable "@ + config_var_key(var)
            + " present but could not be parsed"@,
        StackError::SkippingPacket(inner) => "Skipping packet: "@ + error_text(*inner),
        StackError::CreatingReply(inner) => "Error creating reply: "@ + error_text(*inner),
    }
}

/// `b` as text.
fn bool_str(b: bool) -> (r: &'static str)
    ensures
        r@ == bool_text(b),
{
    if b {
        "true"
    } else {
        "false"
    }
}

/// The environment variable that sets `v`.
pub fn config_var_key_str(v: ConfigVar) -> (r: &'static str)
    ensures
        r@ == config_var_key(v),
{
    match v {
        ConfigVar::TunName => "TYPENET_TUN_NAME",
        ConfigVar::WorkerCount => "TYPENET_WORKER_COUNT",
        ConfigVar::App => "TYPENET_APP",
        ConfigVar::InitRtoMillis => "TYPENET_INIT_RTO_MILLIS",
        ConfigVar::MaxRetransmits => "TYPENET_MAX_RETRANSMITS",
        ConfigVar::GraceSecs => "TYPENET_GRACE_SECS",
        ConfigVar::LogLevel => "TYPENET_LOG_LEVEL",
    }
}

/// `s` followed by `(<len> bytes)`.
fn with_len(s: &str, len: usize) -> (r: String)
    ensures
        r@ == s@ + bytes_text(len),
{
    let mut out = String::from_str(s);
    out.append(" (");
    push_decimal(&mut out, len as u64);
    out.append(" bytes)");
    assert(out@ =~= s@ + bytes_text(len));
    out
}

/// `s` followed by `n` in decimal.
fn with_number(s: &str, n: u64) -> (r: String)
    ensures
        r@ == s@ + decimal(n as nat),
{
    let mut out = String::from_str(s);
    push_decimal(&mut out, n);
    out
}

impl StackError {
    /// The human-readable description of the error (see `error_text`).
    pub fn message(&self) -> (r: String)
        ensures
            r@ == error_text(*self),
        decreases self,
    {
        match self {
            StackError::TooShortForIpv4Header { len } => with_len("Too short for IPv4 header", *len),
            StackError::Ipv6Packet => String::from_str("IPv6 packet"),
            StackError::UnexpectedIpVersion { version } => with_number("Unexpected IP version ", *version as u64),
            StackError::InvalidIpv4Checksum => String::from_str("Invalid IPv4 header checksum"),
            StackError::UnsupportedProtocol { protocol } => with_number("Unsupported protocol ", *protocol as u64),
            StackError::Ipv4DataShorterThanIhl => String::from_str("IPv4 data shorter than its IHL"),
            StackError::Overflowed => String::from_str("Overflowed while adding"),
            StackError::IndexOutOfRange { index, len } => {
                let mut s = with_number("Index ", *index as u64);
                push_out_of_range(&mut s, *len);
                s
            },
            StackError::RangeOutOfRange { start, end, len } => {
                let mut s = with_number("Index ", *start as u64);
                s.append("..");
                push_decimal(&mut s, *end as u64);
                push_out_of_range(&mut s, *len);
                s
            },
            StackError::IntegerConversion => String::from_str(
                "Integer conversion error: out of range integral type conversion attempted",
            ),
            StackError::TooShortForTcpHeader { len } => with_len("Too short for TCP header", *len),
            StackError::InvalidTcpChecksum => String::from_str("Invalid TCP checksum"),
            StackError::InvalidTcpFlags { bits } => {
                let b = *bits;
                let mut s = String::from_str("Invalid TCP flag combination: ACK=");
                s.append(bool_str(b & 0x10 != 0));
                s.append(" RST=");
                s.append(bool_str(b & 0x04 != 0));
                s.append(" SYN=");
                s.append(bool_str(b & 0x02 != 0));
                s.append(" FIN=");
                s.append(bool_str(b & 0x01 != 0));
                s
            },
            StackError::PayloadTooLong => String::from_str(
                "Attempted to create a `TcpPayload` from data longer than `u16::MAX`",
            ),
            StackError::NotSynAck => String::from_str(
                "Attempted to create a new `ConnState` when sending something other than SYN-ACK",
            ),
            StackError::UnackedPastNext => String::from_str(
                "SND.UNA does not precede or equal SND.NXT",
            ),
            StackError::TooShortForEchoHeader { len } => with_len("Too short for ICMP header", *len),
            StackError::InvalidEchoChecksum => String::from_str("Invalid ICMP checksum"),
            StackError::NotEchoRequest { msg_type, code } => {
                let mut s = with_number(
                    "Unsupported ICMP message (not an echo request): type ",
                    *msg_type as u64,
                );
                s.append(" code ");
                push_decimal(&mut s, *code as u64);
                s
            },
            StackError::TooShortForUdpHeader { len } => with_len("Too short for UDP header", *len),
            StackError::InvalidUdpLength { field } => with_number("Invalid UDP length ", *field as u64),
            StackError::InvalidUdpChecksum => String::from_str("Invalid UDP checksum"),
            StackError::InvalidLogLevel => String::from_str(
                "Log level must be a digit between 0 and 4 inclusive",
            ),
            StackError::InvalidServerApp => String::from_str(
                "Server app must be either `echo` or `shout`",
            ),
            StackError::UnparsableConfigVar { var } => {
                let mut s = String::from_str("Environment variable ");
                s.append(config_var_key_str(*var));
                s.append(" present but could not be parsed");
                s
            },
            StackError::SkippingPacket(inner) => {
                let mut s = String::from_str("Skipping packet: ");
                let rest = inner.message();
                s.append(rest.as_str());
                s
            },
            StackError::CreatingReply(inner) => {
                let mut s = String::from_str("Error creating reply: ");
                let rest = inner.message();
                s.append(rest.as_str());
                s
            },
        }
    }
}

} // verus!
