pub mod connections;
pub mod flags;
pub mod payload;
pub mod reassembly;
pub mod send_info;
pub mod seq_space;
pub mod state;

use crate::addr_pairs::{Ipv4AddrPair, PortPair};
use crate::bytes::{
    be16, be16_bytes, be32, be32_bytes, copy_into, copy_range, lemma_be16_roundtrip, lemma_be32_roundtrip, overwrite,
    push_all, push_be16, push_be32, read_be16, read_be32, write_be16,
};
use crate::checksum::lemma_embedded_checksum_validates;
use crate::error::StackError;
use crate::protocol::pseudo_header::{
    pseudo_hdr_cksum, pseudo_hdr_error, pseudo_header, pseudo_header_checksum,
    lemma_pseudo_header_checksum_swapped,
};
use crate::protocol::Protocol;
use flags::{flags_byte, flags_from_byte, lemma_flags_roundtrip, TcpFlags, FLAG_MASK};
use payload::{payload_bytes, TcpPayload};
use seq_space::{SeqPoint};
use crate::protocol::display::{port_pair_text, push_port_pair, push_thousands, thousands, PrettyPayload};
use crate::protocol::router::PrettyProtocol;
use flags::flags_name;
use vstd::string::*;
use vstd::prelude::*;

verus! {

/// The minimum number of bytes in a TCP header (no options).
pub const TCP_HDR_MIN_LEN: u8 = 20;

/// A TCP header and payload. Field definitions below from RFC 9293, Section 3.1.
#[derive(Debug, PartialEq, Eq)]
pub struct TcpSegment {
    /// Not a part of the TCP header, but required for connection state and checksum calculation.
    pub ip_pair: Ipv4AddrPair,
    pub ports: PortPair,
    /// "The sequence number of the first data octet in this segment (except when the SYN flag is
    /// set). If SYN is set, the sequence number is the initial sequence number (ISN) and the first
    /// data octet is ISN+1."
    pub seq_num: SeqPoint,
    /// "If the ACK control bit is set, this field contains the value of the next sequence number
    /// the sender of the segment is expecting to receive."
    pub ack_num: SeqPoint,
    /// **This field is stored in units of bytes.** The length of the TCP header.
    pub offset_bytes: u8,
    pub flags: TcpFlags,
    /// "The number of data octets beginning with the one indicated in the acknowledgment field
    /// that the sender of this segment is willing to accept."
    pub window: u16,
    pub payload: Option<TcpPayload>,
}

/// The contents of a TCP segment as plain values.
pub struct TcpFields {
    pub ip_pair: Ipv4AddrPair,
    pub ports: PortPair,
    pub seq_num: u32,
    pub ack_num: u32,
    pub offset_bytes: u8,
    pub flags: TcpFlags,
    pub window: u16,
    pub payload: Seq<u8>,
}

/// The contents of `seg` as plain values.
pub open spec fn tcp_fields(seg: TcpSegment) -> TcpFields {
    TcpFields {
        ip_pair: seg.ip_pair,
        ports: seg.ports,
        seq_num: seg.seq_num.value,
        ack_num: seg.ack_num.value,
        offset_bytes: seg.offset_bytes,
        flags: seg.flags,
        window: seg.window,
        payload: payload_bytes(seg.payload),
    }
}

/// The header length in bytes from the data offset nibble (in 32-bit words) of header byte 12.
pub open spec fn offset_bytes_of(b12: u8) -> u8 {
    (b12 / 16 * 4) as u8
}

/// Header byte 12 for a header length of `offset_bytes`: the length in 32-bit words in the upper
/// four bits, reserved zeros in the lower four.
pub open spec fn data_offset_byte(offset_bytes: u8) -> u8 {
    (offset_bytes / 4 % 16 * 16) as u8
}

/// The first problem with parsing `data` as a TCP segment travelling between `ip_pair`, if any.
/// The checks come in this order: length, checksum (which needs the segment to fit the Ethernet
/// MTU), control bits.
pub open spec fn tcp_parse_error(data: Seq<u8>, ip_pair: Ipv4AddrPair) -> Option<StackError> {
    if data.len() < 20 {
        Some(StackError::TooShortForTcpHeader { len: data.len() as usize })
    } else if pseudo_hdr_error(data.len() as int) is Some {
        pseudo_hdr_error(data.len() as int)
    } else if pseudo_header_checksum(data, ip_pair, Protocol::Tcp) != 0 {
        Some(StackError::InvalidTcpChecksum)
    } else if flags_from_byte(data[13]) is None {
        Some(StackError::InvalidTcpFlags { bits: data[13] & FLAG_MASK })
    } else {
        None
    }
}

/// The fields read from `data`, a TCP segment travelling between `ip_pair` that passes every check
/// of `tcp_parse_error`. The payload is everything past the header length, or nothing if the
/// header length points past the end.
pub open spec fn tcp_parsed_fields(data: Seq<u8>, ip_pair: Ipv4AddrPair) -> TcpFields {
    let offset = offset_bytes_of(data[12]);
    TcpFields {
        ip_pair,
        ports: PortPair { src: be16(data[0], data[1]), dst: be16(data[2], data[3]) },
        seq_num: be32(data[4], data[5], data[6], data[7]),
        ack_num: be32(data[8], data[9], data[10], data[11]),
        offset_bytes: offset,
        flags: flags_from_byte(data[13])->0,
        window: be16(data[14], data[15]),
        payload: if offset <= data.len() {
            data.subrange(offset as int, data.len() as int)
        } else {
            Seq::empty()
        },
    }
}

/// The bytes of `seg` before its checksum is filled in: the header (with a zero checksum field
/// and zero urgent pointer) followed by the payload.
pub open spec fn tcp_segment_unchecked(seg: TcpSegment) -> Seq<u8> {
    be16_bytes(seg.ports.src) + be16_bytes(seg.ports.dst) + be32_bytes(seg.seq_num.value)
        + be32_bytes(seg.ack_num.value) + seq![
        data_offset_byte(seg.offset_bytes),
        flags_byte(seg.flags),
    ] + be16_bytes(seg.window) + seq![0u8, 0u8, 0u8, 0u8] + payload_bytes(seg.payload)
}

/// The bytes of `seg` as sent: the header and payload with the checksum over the pseudo-header,
/// header, and payload filled in.
pub open spec fn tcp_segment_bytes(seg: TcpSegment) -> Seq<u8> {
    let unchecked = tcp_segment_unchecked(seg);
    let c = pseudo_header_checksum(unchecked, seg.ip_pair, Protocol::Tcp);
    unchecked.update(16, (c / 256) as u8).update(17, (c % 256) as u8)
}

/// How far the header fields reach that a buffer of `buf_len` (fewer than 20) bytes has room for,
/// the fields being written in order: ports, sequence number, acknowledgment number, data offset,
/// flags, window.
pub open spec fn header_prefix_end(buf_len: int) -> int {
    if buf_len < 2 {
        0
    } else if buf_len < 4 {
        2
    } else if buf_len < 8 {
        4
    } else if buf_len < 12 {
        8
    } else if buf_len < 13 {
        12
    } else if buf_len < 14 {
        13
    } else if buf_len < 16 {
        14
    } else {
        16
    }
}

/// Why writing `seg` into a buffer of `buf_len` bytes fails, if it does. The header fields are
/// written in order, and the first one the buffer has no room for fails with its index or range
/// (the checksum field is skipped and the urgent pointer comes last, at 18..20); then the payload
/// at 20.., then the length must fit `u16`, then the pseudo-header checksum must be possible
/// (see `pseudo_hdr_error`).
pub open spec fn tcp_write_error(seg: TcpSegment, buf_len: int) -> Option<StackError> {
    let p = payload_bytes(seg.payload).len();
    let seg_len = 20 + p;
    let l = buf_len as usize;
    if buf_len < 2 {
        Some(StackError::RangeOutOfRange { start: 0, end: 2, len: l })
    } else if buf_len < 4 {
        Some(StackError::RangeOutOfRange { start: 2, end: 4, len: l })
    } else if buf_len < 8 {
        Some(StackError::RangeOutOfRange { start: 4, end: 8, len: l })
    } else if buf_len < 12 {
        Some(StackError::RangeOutOfRange { start: 8, end: 12, len: l })
    } else if buf_len < 13 {
        Some(StackError::IndexOutOfRange { index: 12, len: l })
    } else if buf_len < 14 {
        Some(StackError::IndexOutOfRange { index: 13, len: l })
    } else if buf_len < 16 {
        Some(StackError::RangeOutOfRange { start: 14, end: 16, len: l })
    } else if buf_len < 20 {
        Some(StackError::RangeOutOfRange { start: 18, end: 20, len: l })
    } else if buf_len < seg_len {
        Some(StackError::RangeOutOfRange { start: 20, end: seg_len as usize, len: l })
    } else if seg_len > 0xFFFF {
        Some(StackError::Overflowed)
    } else {
        pseudo_hdr_error(seg_len as int)
    }
}

/// The buffer after writing `seg` into `buf` fails (see `tcp_write_error`): what was written before
/// the failing step stays. Short of the full header, the fields that fit are written; past it, the
/// header is written but for the checksum field, then the payload if it fits; only when the
/// checksum itself is what fails is the zeroed checksum field written too.
pub open spec fn tcp_failed_buf(seg: TcpSegment, buf: Seq<u8>) -> Seq<u8> {
    let u = tcp_segment_unchecked(seg);
    let seg_len = 20 + payload_bytes(seg.payload).len();
    if buf.len() < 20 {
        overwrite(buf, u, 0, header_prefix_end(buf.len() as int))
    } else if buf.len() < seg_len {
        overwrite(overwrite(buf, u, 0, 16), u, 18, 20)
    } else if seg_len > 0xFFFF {
        overwrite(overwrite(buf, u, 0, 16), u, 18, seg_len as int)
    } else {
        overwrite(buf, u, 0, seg_len as int)
    }
}

/// The outcome of writing `seg` into the buffer `buf`: the bytes written and the buffer after, or
/// the error (see `tcp_failed_buf` for the buffer after it).
pub open spec fn tcp_write_outcome(seg: TcpSegment, buf: Seq<u8>) -> Result<(u16, Seq<u8>), StackError> {
    match tcp_write_error(seg, buf.len() as int) {
        Some(e) => Err(e),
        None => {
            let n = 20 + payload_bytes(seg.payload).len();
            Ok(((n as u16), tcp_segment_bytes(seg) + buf.subrange(n as int, buf.len() as int)))
        },
    }
}

impl Clone for TcpSegment {
    fn clone(&self) -> (r: Self)
        ensures
            tcp_fields(r) == tcp_fields(*self),
    {
        let payload = match &self.payload {
            None => None,
            Some(p) => Some(p.clone()),
        };
        TcpSegment {
            ip_pair: self.ip_pair,
            ports: self.ports,
            seq_num: self.seq_num,
            ack_num: self.ack_num,
            offset_bytes: self.offset_bytes,
            flags: self.flags,
            window: self.window,
            payload,
        }
    }
}

impl TcpSegment {
    /// Parses `data` as a TCP header and payload travelling between `ip_pair`.
    pub fn parse(data: &[u8], ip_pair: Ipv4AddrPair) -> (r: Result<TcpSegment, StackError>)
        ensures
            (r matches Err(e) ==> tcp_parse_error(data@, ip_pair) == Some(e)),
            (r matches Ok(seg) ==> tcp_parse_error(data@, ip_pair) is None && tcp_fields(seg)
                == tcp_parsed_fields(data@, ip_pair)),
            (r is Ok) == (tcp_parse_error(data@, ip_pair) is None),
    {
        if data.len() < 20 {
            return Err(StackError::TooShortForTcpHeader { len: data.len() });
        }
        let cksum = match pseudo_hdr_cksum(data, ip_pair, Protocol::Tcp) {
            Ok(c) => c,
            Err(e) => return Err(e),
        };
        if cksum != 0 {
            return Err(StackError::InvalidTcpChecksum);
        }
        // Convert length in 32-bit words in the upper 4 bits to length in bytes
        let offset_bytes = data[12] / 16 * 4;
        let flags = match TcpFlags::try_from_byte(data[13]) {
            Ok(f) => f,
            Err(e) => return Err(e),
        };
        let mut rest: Vec<u8> = Vec::new();
        let offset = offset_bytes as usize;
        if offset <= data.len() {
            let mut i = offset;
            while i < data.len()
                invariant
                    offset <= i <= data@.len(),
                    rest@ =~= data@.subrange(offset as int, i as int),
                decreases data@.len() - i,
            {
                rest.push(data[i]);
                i = i + 1;
            }
        }
        let payload = match TcpPayload::try_from_bytes(rest) {
            Ok(p) => p,
            Err(e) => return Err(e),
        };
        let seg = TcpSegment {
            ip_pair,
            ports: PortPair { src: read_be16(data, 0), dst: read_be16(data, 2) },
            seq_num: SeqPoint { value: read_be32(data, 4) },
            ack_num: SeqPoint { value: read_be32(data, 8) },
            offset_bytes,
            flags,
            window: read_be16(data, 14),
            payload,
        };
        assert(tcp_fields(seg).payload =~= tcp_parsed_fields(data@, ip_pair).payload);
        Ok(seg)
    }

    /// Writes the header and payload into the start of `buf`, filling in the checksum, and returns
    /// the number of bytes written. On error, what was written before the failing step stays (see
    /// `tcp_failed_buf`).
    pub fn write_into(&self, buf: &mut [u8]) -> (r: Result<u16, StackError>)
        ensures
            (r matches Err(e) ==> tcp_write_error(*self, old(buf)@.len() as int) == Some(e)
                && final(buf)@ == tcp_failed_buf(*self, old(buf)@)),
            (r matches Ok(n) ==> tcp_write_error(*self, old(buf)@.len() as int) is None && n == 20
                + payload_bytes(self.payload).len() && final(buf)@ == tcp_segment_bytes(*self)
                + old(buf)@.subrange(n as int, old(buf)@.len() as int)),
            (r is Ok) == (tcp_write_error(*self, old(buf)@.len() as int) is None),
            (match r {
                Ok(n) => tcp_write_outcome(*self, old(buf)@) == Ok::<_, StackError>((n, final(buf)@)),
                Err(e) => tcp_write_outcome(*self, old(buf)@) == Err::<(u16, Seq<u8>), _>(e),
            }),
    {
        let plen: usize = match &self.payload {
            None => 0,
            Some(p) => p.len() as usize,
        };
        let seg_len = 20 + plen;
        let mut bytes: Vec<u8> = Vec::new();
        push_be16(&mut bytes, self.ports.src);
        push_be16(&mut bytes, self.ports.dst);
        push_be32(&mut bytes, self.seq_num.value);
        push_be32(&mut bytes, self.ack_num.value);
        // Data offset in upper 4 bits (bytes / 4 = 32-bit words), reserved zeros in lower 4 bits
        bytes.push(self.offset_bytes / 4 % 16 * 16);
        bytes.push(self.flags.to_byte());
        push_be16(&mut bytes, self.window);
        // Checksum (zero until calculated) and urgent pointer
        bytes.push(0x00);
        bytes.push(0x00);
        bytes.push(0x00);
        bytes.push(0x00);
        match &self.payload {
            None => {},
            Some(p) => {
                push_all(&mut bytes, p.as_bytes());
            },
        }
        assert(bytes@ =~= tcp_segment_unchecked(*self));
        let blen = buf.len();
        if blen < 20 {
            let end: usize = if blen < 2 {
                0
            } else if blen < 4 {
                2
            } else if blen < 8 {
                4
            } else if blen < 12 {
                8
            } else if blen < 13 {
                12
            } else if blen < 14 {
                13
            } else if blen < 16 {
                14
            } else {
                16
            };
            copy_range(buf, bytes.as_slice(), 0, end);
            return Err(
                if blen < 2 {
                    StackError::RangeOutOfRange { start: 0, end: 2, len: blen }
                } else if blen < 4 {
                    StackError::RangeOutOfRange { start: 2, end: 4, len: blen }
                } else if blen < 8 {
                    StackError::RangeOutOfRange { start: 4, end: 8, len: blen }
                } else if blen < 12 {
                    StackError::RangeOutOfRange { start: 8, end: 12, len: blen }
                } else if blen < 13 {
                    StackError::IndexOutOfRange { index: 12, len: blen }
                } else if blen < 14 {
                    StackError::IndexOutOfRange { index: 13, len: blen }
                } else if blen < 16 {
                    StackError::RangeOutOfRange { start: 14, end: 16, len: blen }
                } else {
                    StackError::RangeOutOfRange { start: 18, end: 20, len: blen }
                },
            );
        }
        if blen < seg_len {
            copy_range(buf, bytes.as_slice(), 0, 16);
            copy_range(buf, bytes.as_slice(), 18, 20);
            return Err(StackError::RangeOutOfRange { start: 20, end: seg_len, len: blen });
        }
        if seg_len > 0xFFFF {
            copy_range(buf, bytes.as_slice(), 0, 16);
            copy_range(buf, bytes.as_slice(), 18, seg_len);
            return Err(StackError::Overflowed);
        }
        let cksum = match pseudo_hdr_cksum(bytes.as_slice(), self.ip_pair, Protocol::Tcp) {
            Ok(c) => c,
            Err(e) => {
                copy_range(buf, bytes.as_slice(), 0, seg_len);
                return Err(e);
            },
        };
        write_be16(bytes.as_mut_slice(), 16, cksum);
        assert(bytes@ =~= tcp_segment_bytes(*self));
        copy_into(buf, bytes.as_slice());
        Ok(seg_len as u16)
    }
}

/// Parsing the bytes of a segment written with a minimal header gives back all of its fields, and
/// the checksum verifies whichever direction's address pair the receiver checks it against.
pub proof fn lemma_tcp_write_parse_roundtrip(seg: TcpSegment)
    requires
        seg.offset_bytes == TCP_HDR_MIN_LEN,
        20 + payload_bytes(seg.payload).len() <= 1500,
    ensures
        tcp_parse_error(tcp_segment_bytes(seg), seg.ip_pair) is None,
        tcp_parse_error(tcp_segment_bytes(seg), seg.ip_pair.swapped_spec()) is None,
        tcp_parsed_fields(tcp_segment_bytes(seg), seg.ip_pair) == tcp_fields(seg),
{
    let unchecked = tcp_segment_unchecked(seg);
    let bytes = tcp_segment_bytes(seg);
    let len = crate::bytes::spec_u16(unchecked.len() as int);
    let ph = pseudo_header(seg.ip_pair, Protocol::Tcp, len);
    let whole = ph + unchecked;
    let c = pseudo_header_checksum(unchecked, seg.ip_pair, Protocol::Tcp);
    assert(whole[28] == 0 && whole[29] == 0);
    lemma_embedded_checksum_validates(whole, 14);
    assert(whole.update(28, (c / 256) as u8).update(29, (c % 256) as u8) =~= ph + bytes);
    assert(bytes.len() == unchecked.len());
    lemma_pseudo_header_checksum_swapped(bytes, seg.ip_pair, Protocol::Tcp);
    let b = flags_byte(seg.flags);
    assert(b | 0u8 == b) by (bit_vector);
    assert(0u8 & 0x17u8 == 0) by (bit_vector);
    lemma_flags_roundtrip(seg.flags, 0);
    lemma_be16_roundtrip(seg.ports.src);
    lemma_be16_roundtrip(seg.ports.dst);
    lemma_be32_roundtrip(seg.seq_num.value);
    lemma_be32_roundtrip(seg.ack_num.value);
    lemma_be16_roundtrip(seg.window);
    assert(bytes[12] == 80);
    assert(bytes.subrange(20, bytes.len() as int) =~= payload_bytes(seg.payload));
    assert(tcp_parsed_fields(bytes, seg.ip_pair) == tcp_fields(seg));
}

/// The one-line description of `seg`: ports, sequence and acknowledgment numbers, window, and
/// flags, the numbers with thousands separators.
pub open spec fn tcp_segment_text(seg: TcpSegment) -> Seq<char> {
    "TCP | "@ + port_pair_text(seg.ports) + " | seq="@ + thousands(seg.seq_num.value as nat)
        + " ack="@ + thousands(seg.ack_num.value as nat) + " win="@ + thousands(seg.window as nat)
        + " | "@ + flags_name(seg.flags)@
}

impl PrettyProtocol for TcpSegment {
    fn to_text(&self) -> (r: String)
        ensures
            r@ == tcp_segment_text(*self),
    {
        let mut s = String::from_str("TCP | ");
        push_port_pair(&mut s, self.ports);
        s.append(" | seq=");
        push_thousands(&mut s, self.seq_num.value as u64);
        s.append(" ack=");
        push_thousands(&mut s, self.ack_num.value as u64);
        s.append(" win=");
        push_thousands(&mut s, self.window as u64);
        s.append(" | ");
        s.append(self.flags.name());
        assert(s@ =~= tcp_segment_text(*self));
        s
    }

    fn pretty_payload(&self, include_content: bool) -> (r: PrettyPayload<'_>)
        ensures
            r.data@ == payload_bytes(self.payload),
            r.include_content == include_content,
    {
        let data: &[u8] = match &self.payload {
            Some(p) => p.as_bytes(),
            None => &[],
        };
        PrettyPayload { data, include_content }
    }
}

} // verus!
