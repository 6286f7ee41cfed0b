use crate::addr_pairs::Ipv4AddrPair;
use crate::bytes::{
    be16, be16_bytes, be32, be32_bytes, lemma_be16_roundtrip, lemma_be32_roundtrip, read_be16,
    read_be32, write_be16, write_be32,
};
use crate::checksum::{calculate, internet_checksum, lemma_embedded_checksum_validates};
use crate::error::StackError;
use crate::protocol::{
    lemma_protocol_number_roundtrip, protocol_from_number, protocol_number, Protocol,
};
use crate::protocol::display::{decimal, ip_pair_text, push_decimal, push_ip_pair};
use crate::protocol::protocol_text;
use vstd::string::*;
use vstd::prelude::*;
use vstd::slice::slice_subrange;

verus! {

/// The number of bytes in an IPv4 header without options, which is what replies use.
pub const REPLY_HDR_LEN: usize = 20;

/// The IPv4 header fields this stack reads and writes.
#[derive(Clone, Copy, Debug, PartialEq, Eq, Structural)]
pub struct Ipv4Header {
    pub total_len: u16,
    pub protocol: Protocol,
    pub ip_pair: Ipv4AddrPair,
}

/// The IP version in the high nibble of the first header byte.
pub open spec fn ip_version(b0: u8) -> u8 {
    (b0 / 16) as u8
}

/// The header length in bytes, from the IHL nibble (in 32-bit words) of the first header byte.
pub open spec fn ihl_bytes(b0: u8) -> int {
    (b0 % 16) * 4
}

/// The outcome of parsing `data` as an IPv4 packet: the header fields and the bytes after the
/// header, or the first problem found. The checks come in this order: length, version, header
/// checksum, protocol number, header length.
pub open spec fn ipv4_parse_result(data: Seq<u8>) -> Result<(Ipv4Header, Seq<u8>), StackError> {
    if data.len() < 20 {
        Err(StackError::TooShortForIpv4Header { len: data.len() as usize })
    } else if ip_version(data[0]) == 6 {
        Err(StackError::Ipv6Packet)
    } else if ip_version(data[0]) != 4 {
        Err(StackError::UnexpectedIpVersion { version: ip_version(data[0]) })
    } else if internet_checksum(data.subrange(0, 20)) != 0 {
        Err(StackError::InvalidIpv4Checksum)
    } else {
        match protocol_from_number(data[9]) {
            None => Err(StackError::UnsupportedProtocol { protocol: data[9] }),
            Some(protocol) => if ihl_bytes(data[0]) > data.len() {
                Err(StackError::Ipv4DataShorterThanIhl)
            } else {
                Ok(
                    (
                        Ipv4Header {
                            total_len: be16(data[2], data[3]),
                            protocol,
                            ip_pair: Ipv4AddrPair {
                                src: be32(data[12], data[13], data[14], data[15]),
                                dst: be32(data[16], data[17], data[18], data[19]),
                            },
                        },
                        data.subrange(ihl_bytes(data[0]), data.len() as int),
                    ),
                )
            },
        }
    }
}

/// The 20 bytes of a reply header for `h` before its checksum is filled in: version 4, IHL 5, no
/// DSCP/ECN, identification 0, Don't Fragment, TTL 64, and a zero checksum field.
pub open spec fn ipv4_header_unchecked(h: Ipv4Header) -> Seq<u8> {
    seq![0x45u8, 0x00u8] + be16_bytes(h.total_len) + seq![
        0x00u8,
        0x00u8,
        0x40u8,
        0x00u8,
        64u8,
        protocol_number(h.protocol),
        0x00u8,
        0x00u8,
    ] + be32_bytes(h.ip_pair.src) + be32_bytes(h.ip_pair.dst)
}

/// The 20 bytes of a reply header for `h`, with the header checksum filled in.
pub open spec fn ipv4_header_bytes(h: Ipv4Header) -> Seq<u8> {
    let unchecked = ipv4_header_unchecked(h);
    let c = internet_checksum(unchecked);
    unchecked.update(10, (c / 256) as u8).update(11, (c % 256) as u8)
}

impl Ipv4Header {
    /// Parses `data` as an IPv4 packet, returning the header fields and a slice starting at the
    /// beginning of the payload.
    pub fn parse(data: &[u8]) -> (r: Result<(Ipv4Header, &[u8]), StackError>)
        ensures
            (match r {
                Ok((h, payload)) => ipv4_parse_result(data@) == Ok::<_, StackError>((h, payload@)),
                Err(e) => ipv4_parse_result(data@) == Err::<(Ipv4Header, Seq<u8>), _>(e),
            }),
    {
        if data.len() < 20 {
            return Err(StackError::TooShortForIpv4Header { len: data.len() });
        }
        // Must be IPv4

        let version = data[0] / 16;
        if version == 6 {
            return Err(StackError::Ipv6Packet);
        } else if version != 4 {
            return Err(StackError::UnexpectedIpVersion { version });
        }
        let ip_hdr = slice_subrange(data, 0, 20);
        if calculate(ip_hdr) != 0 {
            return Err(StackError::InvalidIpv4Checksum);
        }
        // Convert 32-bit words to bytes

        let ihl = ((data[0] % 16) as usize) * 4;
        let protocol = match Protocol::try_from_number(data[9]) {
            Ok(p) => p,
            Err(e) => return Err(e),
        };
        if ihl > data.len() {
            return Err(StackError::Ipv4DataShorterThanIhl);
        }
        let header = Ipv4Header {
            total_len: read_be16(data, 2),
            protocol,
            ip_pair: Ipv4AddrPair { src: read_be32(data, 12), dst: read_be32(data, 16) },
        };
        Ok((header, slice_subrange(data, ihl, data.len())))
    }

    /// Creates a header for a reply carrying `proto_len` bytes of protocol-specific header and
    /// payload. Total length is the length of the IPv4 header + `proto_len`.
    pub fn try_new(protocol: Protocol, ip_pair: Ipv4AddrPair, proto_len: u16) -> (r: Result<
        Ipv4Header,
        StackError,
    >)
        ensures
            (r is Ok) == (proto_len + 20 <= 0xFFFF),
            (r matches Ok(h) ==> h == (Ipv4Header {
                total_len: (proto_len + 20) as u16,
                protocol,
                ip_pair,
            })),
            (r matches Err(e) ==> e == StackError::Overflowed),
    {
        if proto_len > 0xFFFF - 20 {
            Err(StackError::Overflowed)
        } else {
            Ok(Ipv4Header { total_len: proto_len + 20, protocol, ip_pair })
        }
    }

    /// Writes a reply header into the first 20 bytes of `buf`, copying the header data from `self`
    /// and filling in the header checksum. The rest of `buf` is untouched.
    pub fn write_into(&self, buf: &mut [u8])
        requires
            old(buf)@.len() >= 20,
        ensures
            final(buf)@ == ipv4_header_bytes(*self) + old(buf)@.subrange(20, old(buf)@.len() as int),
    {
        let ghost rest = buf@.subrange(20, buf@.len() as int);
        // Version 4, IHL 5 (20 bytes)
        buf[0] = 0x45;
        // DSCP/ECN
        buf[1] = 0x00;
        write_be16(buf, 2, self.total_len);
        // Identification
        buf[4] = 0x00;
        buf[5] = 0x00;
        // Flags + Fragment offset (Don't Fragment)
        buf[6] = 0x40;
        buf[7] = 0x00;
        // TTL
        buf[8] = 64;
        buf[9] = self.protocol.number();
        // Clear the header checksum field before calculating
        buf[10] = 0x00;
        buf[11] = 0x00;
        write_be32(buf, 12, self.ip_pair.src);
        write_be32(buf, 16, self.ip_pair.dst);
        let ghost unchecked = ipv4_header_unchecked(*self);
        assert(buf@ =~= unchecked + rest);
        let ip_cksum = calculate(slice_subrange(buf, 0, 20));
        assert(buf@.subrange(0, 20) =~= unchecked);
        write_be16(buf, 10, ip_cksum);
        assert(buf@ =~= ipv4_header_bytes(*self) + rest);
    }
}

/// A written reply header always carries a valid header checksum.
pub proof fn lemma_written_header_checksum_valid(h: Ipv4Header)
    ensures
        internet_checksum(ipv4_header_bytes(h)) == 0,
{
    let unchecked = ipv4_header_unchecked(h);
    assert(unchecked[10] == 0 && unchecked[11] == 0);
    lemma_embedded_checksum_validates(unchecked, 5);
}

/// Parsing a written reply header followed by any payload gives back the same header fields and
/// exactly that payload.
pub proof fn lemma_ipv4_write_parse_roundtrip(h: Ipv4Header, payload: Seq<u8>)
    ensures
        ipv4_parse_result(ipv4_header_bytes(h) + payload) == Ok::<_, StackError>((h, payload)),
{
    let bytes = ipv4_header_bytes(h);
    let data = bytes + payload;
    lemma_written_header_checksum_valid(h);
    assert(data.subrange(0, 20) =~= bytes);
    lemma_protocol_number_roundtrip(h.protocol);
    lemma_be16_roundtrip(h.total_len);
    lemma_be32_roundtrip(h.ip_pair.src);
    lemma_be32_roundtrip(h.ip_pair.dst);
    assert(data[0] == 0x45);
    assert(data.subrange(20, data.len() as int) =~= payload);
    assert(ipv4_parse_result(data) == Ok::<_, StackError>((h, payload)));
}

/// The one-line description of `h`: its total length, protocol, and addresses.
pub open spec fn ipv4_header_text(h: Ipv4Header) -> Seq<char> {
    "IPv4 | "@ + decimal(h.total_len as nat) + " bytes total | "@ + protocol_text(h.protocol)
        + " | "@ + ip_pair_text(h.ip_pair)
}

impl Ipv4Header {
    /// The one-line description of the header (see `ipv4_header_text`).
    pub fn to_text(&self) -> (r: String)
        ensures
            r@ == ipv4_header_text(*self),
    {
        let mut s = String::from_str("IPv4 | ");
        push_decimal(&mut s, self.total_len as u64);
        s.append(" bytes total | ");
        s.append(self.protocol.name());
        s.append(" | ");
        push_ip_pair(&mut s, self.ip_pair);
        assert(s@ =~= ipv4_header_text(*self));
        s
    }
}

} // verus!
