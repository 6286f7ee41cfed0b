use crate::addr_pairs::{Ipv4AddrPair, PortPair};
use crate::bytes::{
    be16, be16_bytes, copy_into, lemma_be16_roundtrip, push_all, push_be16, range_of, read_be16,
    usize_to_u16, write_be16,
};
use crate::application::{app_reply, ServerApp};
use crate::error::StackError;
use crate::protocol::pseudo_header::{
    ethernet_mtu, lemma_pseudo_header_checksum_swapped, pseudo_hdr_cksum, pseudo_hdr_error, pseudo_header,
    pseudo_header_checksum,
};
use crate::protocol::Protocol;
use crate::protocol::display::{port_pair_text, push_port_pair, PrettyPayload};
use crate::protocol::router::PrettyProtocol;
use vstd::string::*;
use vstd::prelude::*;

verus! {

/// The length of a UDP header: source port, destination port, length, checksum.
pub const UDP_HDR_LEN: usize = 8;

/// A UDP datagram (RFC 768).
#[derive(Debug, PartialEq, Eq)]
pub struct UdpDatagram {
    /// Not a part of the datagram, but required for the checksum.
    pub ip_pair: Ipv4AddrPair,
    pub ports: PortPair,
    pub payload: Vec<u8>,
}

/// The first problem with parsing `data` as a UDP datagram travelling between `ip_pair`, if any:
/// too short for the header, a length field below the header length or past the data, or (when a
/// checksum is present, i.e. nonzero) a datagram too long for the checksum or a checksum that does
/// not verify. Bytes past the length field are ignored.
pub open spec fn udp_parse_error(data: Seq<u8>, ip_pair: Ipv4AddrPair) -> Option<StackError> {
    if data.len() < 8 {
        Some(StackError::TooShortForUdpHeader { len: data.len() as usize })
    } else {
        let field = be16(data[4], data[5]);
        if field < 8 || field > data.len() {
            Some(StackError::InvalidUdpLength { field })
        } else if be16(data[6], data[7]) == 0 {
            None
        } else if pseudo_hdr_error(field as int) is Some {
            pseudo_hdr_error(field as int)
        } else if pseudo_header_checksum(data.subrange(0, field as int), ip_pair, Protocol::Udp)
            != 0 {
            Some(StackError::InvalidUdpChecksum)
        } else {
            None
        }
    }
}

/// The bytes of `d` before its checksum is filled in: the header with a zero checksum, then the
/// payload.
pub open spec fn udp_unchecked(d: UdpDatagram) -> Seq<u8> {
    be16_bytes(d.ports.src) + be16_bytes(d.ports.dst) + be16_bytes((8 + d.payload@.len()) as u16)
        + seq![0u8, 0u8] + d.payload@
}

/// The checksum sent for `d`: the pseudo-header checksum, with zero sent as `0xFFFF` since a zero
/// field means that no checksum was computed (RFC 768).
pub open spec fn udp_checksum(d: UdpDatagram) -> u16 {
    let c = pseudo_header_checksum(udp_unchecked(d), d.ip_pair, Protocol::Udp);
    if c == 0 {
        0xFFFF
    } else {
        c
    }
}

/// The bytes of `d` as sent, with the checksum filled in.
pub open spec fn udp_bytes(d: UdpDatagram) -> Seq<u8> {
    let c = be16_bytes(udp_checksum(d));
    udp_unchecked(d).update(6, c[0]).update(7, c[1])
}

/// Why writing `d` into a buffer of `buf_len` bytes fails, if it does: the buffer cannot hold it,
/// its length overflows `u16`, or it does not fit the MTU.
pub open spec fn udp_write_error(d: UdpDatagram, buf_len: int) -> Option<StackError> {
    let len = 8 + d.payload@.len();
    if buf_len < 8 {
        Some(StackError::RangeOutOfRange { start: 0, end: 8, len: buf_len as usize })
    } else if len > usize::MAX {
        Some(StackError::Overflowed)
    } else if buf_len < len {
        Some(StackError::RangeOutOfRange { start: 8, end: len as usize, len: buf_len as usize })
    } else if len > 0xFFFF {
        Some(StackError::Overflowed)
    } else {
        pseudo_hdr_error(len as int)
    }
}

/// Whether `d` is what parsing `data` (a UDP datagram travelling between `ip_pair`) gives: the
/// ports from the header and the payload up to the length field.
pub open spec fn udp_parsed(d: UdpDatagram, data: Seq<u8>, ip_pair: Ipv4AddrPair) -> bool {
    &&& d.ip_pair == ip_pair
    &&& d.ports == (PortPair { src: be16(data[0], data[1]), dst: be16(data[2], data[3]) })
    &&& d.payload@ == data.subrange(8, be16(data[4], data[5]) as int)
}

/// Whether `r` is the reply that `app` makes to `d`: sent back the way `d` came, carrying what
/// `app` answers to the payload.
pub open spec fn udp_reply_of(r: UdpDatagram, d: UdpDatagram, app: ServerApp) -> bool {
    &&& r.ip_pair == d.ip_pair.swapped_spec()
    &&& r.ports == (PortPair { src: d.ports.dst, dst: d.ports.src })
    &&& r.payload@ == app_reply(app, d.payload@)
}

/// The outcome of writing `d` into the buffer `buf`: the bytes written and the buffer after, or
/// the error (with the buffer untouched).
pub open spec fn udp_write_outcome(d: UdpDatagram, buf: Seq<u8>) -> Result<(u16, Seq<u8>), StackError> {
    match udp_write_error(d, buf.len() as int) {
        Some(e) => Err(e),
        None => {
            let n = 8 + d.payload@.len();
            Ok(((n as u16), udp_bytes(d) + buf.subrange(n as int, buf.len() as int)))
        },
    }
}

impl UdpDatagram {
    /// Parses `data` as a UDP datagram travelling between `ip_pair`.
    pub fn parse(data: &[u8], ip_pair: Ipv4AddrPair) -> (r: Result<UdpDatagram, StackError>)
        ensures
            (r is Ok) == (udp_parse_error(data@, ip_pair) is None),
            (r matches Err(e) ==> udp_parse_error(data@, ip_pair) == Some(e)),
            (r matches Ok(d) ==> udp_parsed(d, data@, ip_pair)),
    {
        if data.len() < UDP_HDR_LEN {
            return Err(StackError::TooShortForUdpHeader { len: data.len() });
        }
        let field = read_be16(data, 4);
        if field < 8 || field as usize > data.len() {
            return Err(StackError::InvalidUdpLength { field });
        }
        let end = field as usize;
        if read_be16(data, 6) != 0 {
            let datagram = range_of(data, 0, end);
            let cksum = match pseudo_hdr_cksum(datagram.as_slice(), ip_pair, Protocol::Udp) {
                Ok(c) => c,
                Err(e) => return Err(e),
            };
            if cksum != 0 {
                return Err(StackError::InvalidUdpChecksum);
            }
        }
        Ok(UdpDatagram {
            ip_pair,
            ports: PortPair { src: read_be16(data, 0), dst: read_be16(data, 2) },
            payload: range_of(data, UDP_HDR_LEN, end),
        })
    }

    /// The reply that `app` makes to `self`: sent back the way it came, carrying what `app`
    /// answers to the payload.
    pub fn create_reply(&self, app: ServerApp) -> (r: UdpDatagram)
        ensures
            udp_reply_of(r, *self, app),
    {
        let mut app = app;
        UdpDatagram {
            ip_pair: self.ip_pair.swapped(),
            ports: self.ports.swapped(),
            payload: app.handle_udp(self.payload.clone()),
        }
    }

    /// Writes the header and payload into the start of `buf`, filling in the checksum, and returns
    /// the number of bytes written. On error, `buf` is untouched.
    pub fn write_into(&self, buf: &mut [u8]) -> (r: Result<u16, StackError>)
        ensures
            (r is Ok) == (udp_write_error(*self, old(buf)@.len() as int) is None),
            (r matches Err(e) ==> udp_write_error(*self, old(buf)@.len() as int) == Some(e)
                && final(buf)@ == old(buf)@),
            (r matches Ok(n) ==> n == 8 + self.payload@.len() && final(buf)@ == udp_bytes(*self)
                + old(buf)@.subrange(n as int, old(buf)@.len() as int)),
            (match r {
                Ok(n) => udp_write_outcome(*self, old(buf)@) == Ok::<_, StackError>((n, final(buf)@)),
                Err(e) => udp_write_outcome(*self, old(buf)@) == Err::<(u16, Seq<u8>), _>(e),
            }),
    {
        let plen = self.payload.len();
        if buf.len() < UDP_HDR_LEN {
            return Err(StackError::RangeOutOfRange { start: 0, end: UDP_HDR_LEN, len: buf.len() });
        }
        if plen > usize::MAX - UDP_HDR_LEN {
            return Err(StackError::Overflowed);
        }
        if buf.len() - UDP_HDR_LEN < plen {
            return Err(
                StackError::RangeOutOfRange { start: UDP_HDR_LEN, end: UDP_HDR_LEN + plen, len: buf.len() },
            );
        }
        if plen > 0xFFFF - UDP_HDR_LEN {
            return Err(StackError::Overflowed);
        }
        if plen > 1500 - UDP_HDR_LEN {
            return Err(StackError::RangeOutOfRange { start: 12, end: 12 + UDP_HDR_LEN + plen, len: 1512 });
        }
        let len = usize_to_u16(UDP_HDR_LEN + plen);
        let mut bytes: Vec<u8> = Vec::new();
        push_be16(&mut bytes, self.ports.src);
        push_be16(&mut bytes, self.ports.dst);
        push_be16(&mut bytes, len);
        // Checksum (zero until calculated)
        bytes.push(0);
        bytes.push(0);
        push_all(&mut bytes, self.payload.as_slice());
        assert(bytes@ =~= udp_unchecked(*self));
        let computed = match pseudo_hdr_cksum(bytes.as_slice(), self.ip_pair, Protocol::Udp) {
            Ok(c) => c,
            Err(e) => return Err(e),
        };
        let cksum = if computed == 0 {
            0xFFFF
        } else {
            computed
        };
        write_be16(bytes.as_mut_slice(), 6, cksum);
        assert(bytes@ =~= udp_bytes(*self));
        copy_into(buf, bytes.as_slice());
        Ok(len)
    }
}


/// Parsing the bytes of a written datagram gives back its ports and payload, and its checksum
/// verifies whichever direction's address pair the receiver checks it against.
pub proof fn lemma_udp_write_parse_roundtrip(d: UdpDatagram)
    requires
        8 + d.payload@.len() <= 1500,
    ensures
        udp_parse_error(udp_bytes(d), d.ip_pair) is None,
        udp_parse_error(udp_bytes(d), d.ip_pair.swapped_spec()) is None,
        be16(udp_bytes(d)[0], udp_bytes(d)[1]) == d.ports.src,
        be16(udp_bytes(d)[2], udp_bytes(d)[3]) == d.ports.dst,
        be16(udp_bytes(d)[4], udp_bytes(d)[5]) == udp_bytes(d).len(),
        udp_bytes(d).subrange(8, udp_bytes(d).len() as int) == d.payload@,
{
    let u = udp_unchecked(d);
    let bytes = udp_bytes(d);
    let len = crate::bytes::spec_u16(u.len() as int);
    let ph = pseudo_header(d.ip_pair, Protocol::Udp, len);
    let whole = ph + u;
    let c = pseudo_header_checksum(u, d.ip_pair, Protocol::Udp);
    assert(whole[18] == 0 && whole[19] == 0);
    lemma_be16_roundtrip(d.ports.src);
    lemma_be16_roundtrip(d.ports.dst);
    lemma_be16_roundtrip((8 + d.payload@.len()) as u16);
    lemma_be16_roundtrip(udp_checksum(d));
    assert(bytes.len() == u.len());
    assert(bytes.subrange(0, bytes.len() as int) =~= bytes);
    if c == 0 {
        crate::checksum::lemma_all_ones_checksum_field_validates(whole, 9);
        assert(whole.update(18, 0xFFu8).update(19, 0xFFu8) =~= ph + bytes);
    } else {
        crate::checksum::lemma_embedded_checksum_validates(whole, 9);
        assert(whole.update(18, (c / 256) as u8).update(19, (c % 256) as u8) =~= ph + bytes);
    }
    assert(pseudo_header_checksum(bytes, d.ip_pair, Protocol::Udp) == 0);
    lemma_pseudo_header_checksum_swapped(bytes, d.ip_pair, Protocol::Udp);
    assert(bytes.subrange(8, bytes.len() as int) =~= d.payload@);
}

/// The one-line description of `d`: its ports.
pub open spec fn udp_text(d: UdpDatagram) -> Seq<char> {
    "UDP | "@ + port_pair_text(d.ports)
}

impl PrettyProtocol for UdpDatagram {
    fn to_text(&self) -> (r: String)
        ensures
            r@ == udp_text(*self),
    {
        let mut s = String::from_str("UDP | ");
        push_port_pair(&mut s, self.ports);
        assert(s@ =~= udp_text(*self));
        s
    }

    fn pretty_payload(&self, include_content: bool) -> (r: PrettyPayload<'_>)
        ensures
            r.data@ == self.payload@,
            r.include_content == include_content,
    {
        PrettyPayload { data: self.payload.as_slice(), include_content }
    }
}

} // verus!
