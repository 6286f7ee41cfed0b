use super::{protocol_number, Protocol};
use crate::addr_pairs::Ipv4AddrPair;
use crate::bytes::{be32_bytes, push_be16, push_be32, usize_to_u16};
use crate::checksum::{calculate, internet_checksum, lemma_swapping_words_preserves_checksum};
use crate::error::StackError;
use vstd::prelude::*;

verus! {

/// The Ethernet MTU: the largest IP packet this stack reads or writes.
pub open spec fn ethernet_mtu() -> int {
    1500
}

/// The 12-byte TCP/UDP pseudo-header: source and destination addresses, a zero byte, the protocol
/// number, and the TCP/UDP length.
pub open spec fn pseudo_header(ip_pair: Ipv4AddrPair, protocol: Protocol, len: u16) -> Seq<u8> {
    be32_bytes(ip_pair.src) + be32_bytes(ip_pair.dst) + seq![
        0u8,
        protocol_number(protocol),
        ] + crate::bytes::be16_bytes(len)
}

/// The checksum of the pseudo-header followed by `data`.
pub open spec fn pseudo_header_checksum(
    data: Seq<u8>,
    ip_pair: Ipv4AddrPair,
    protocol: Protocol,
) -> u16 {
    internet_checksum(pseudo_header(ip_pair, protocol, crate::bytes::spec_u16(data.len() as int)) + data)
}

/// Why the pseudo-header checksum of `len` bytes cannot be calculated, if it cannot: the length
/// does not fit the 16-bit length field, or the pseudo-header and data do not fit the 12 + 1500
/// bytes set aside for them (the data's range `12..12 + len` is past their end).
pub open spec fn pseudo_hdr_error(len: int) -> Option<StackError> {
    if len > 0xFFFF {
        Some(StackError::IntegerConversion)
    } else if len > ethernet_mtu() {
        Some(StackError::RangeOutOfRange { start: 12, end: (12 + len) as usize, len: 1512 })
    } else {
        None
    }
}

/// Calculates the TCP/UDP checksum of the pseudo-header + `data`. `data` should cover the TCP/UDP
/// header and payload. Does not zero out the checksum field inside the header of `data` before
/// calculating. Data longer than the Ethernet MTU is refused (see `pseudo_hdr_error`).
pub fn pseudo_hdr_cksum(data: &[u8], ip_pair: Ipv4AddrPair, protocol: Protocol) -> (r: Result<u16, StackError>)
    ensures
        (r is Ok) == (pseudo_hdr_error(data@.len() as int) is None),
        (r matches Ok(c) ==> c == pseudo_header_checksum(data@, ip_pair, protocol)),
        (r matches Err(e) ==> pseudo_hdr_error(data@.len() as int) == Some(e)),
{
    let len = data.len();
    if len > 0xFFFF {
        return Err(StackError::IntegerConversion);
    }
    if len > 1500 {
        return Err(StackError::RangeOutOfRange { start: 12, end: 12 + len, len: 1512 });
    }
    let proto_len = usize_to_u16(len);
    let mut cksum_data: Vec<u8> = Vec::new();
    push_be32(&mut cksum_data, ip_pair.src);
    push_be32(&mut cksum_data, ip_pair.dst);
    // Byte 8 is reserved padding for alignment
    cksum_data.push(0);
    cksum_data.push(protocol.number());
    push_be16(&mut cksum_data, proto_len);
    assert(cksum_data@ =~= pseudo_header(ip_pair, protocol, proto_len));
    let ghost header = cksum_data@;
    let mut i: usize = 0;
    while i < len
        invariant
            i <= len,
            len == data@.len(),
            cksum_data@ =~= header + data@.subrange(0, i as int),
        decreases len - i,
    {
        cksum_data.push(data[i]);
        i = i + 1;
    }
    assert(data@.subrange(0, len as int) =~= data@);
    Ok(calculate(cksum_data.as_slice()))
}

/// The pseudo-header checksum does not depend on the direction of travel: swapping the source and
/// destination addresses leaves it unchanged.
pub proof fn lemma_pseudo_header_checksum_swapped(
    data: Seq<u8>,
    ip_pair: Ipv4AddrPair,
    protocol: Protocol,
)
    ensures
        pseudo_header_checksum(data, ip_pair.swapped_spec(), protocol) == pseudo_header_checksum(
            data,
            ip_pair,
            protocol,
        ),
{
    let len = crate::bytes::spec_u16(data.len() as int);
    let a = pseudo_header(ip_pair, protocol, len) + data;
    let b = pseudo_header(ip_pair.swapped_spec(), protocol, len) + data;
    let a1 = a.update(0, a[4]).update(1, a[5]).update(4, a[0]).update(5, a[1]);
    lemma_swapping_words_preserves_checksum(a, 0, 2);
    let a2 = a1.update(2, a1[6]).update(3, a1[7]).update(6, a1[2]).update(7, a1[3]);
    lemma_swapping_words_preserves_checksum(a1, 1, 3);
    assert(a2 =~= b);
}

} // verus!
