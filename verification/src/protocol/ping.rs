use crate::addr_pairs::Ipv4AddrPair;
use crate::bytes::{
    be16, be16_bytes, copy_into, lemma_be16_roundtrip, push_all, push_be16, read_be16, tail_from,
    usize_to_u16, write_be16,
};
use crate::checksum::{calculate, internet_checksum, lemma_embedded_checksum_validates};
use crate::error::StackError;
use crate::protocol::display::{decimal, push_decimal, PrettyPayload};
use crate::protocol::router::PrettyProtocol;
use vstd::string::*;
use vstd::prelude::*;

verus! {

/// The message type of an Echo Request (RFC 792).
pub const ECHO_REQUEST: u8 = 8;

/// The message type of an Echo Reply (RFC 792).
pub const ECHO_REPLY: u8 = 0;

/// The length of the Echo Request/Reply header: type, code, checksum, identifier, sequence number.
pub const ECHO_HDR_LEN: usize = 8;

/// An Echo Request or Echo Reply message (RFC 792).
#[derive(Debug, PartialEq, Eq)]
pub struct EchoMsg {
    /// Not a part of the message, but where it travels.
    pub ip_pair: Ipv4AddrPair,
    /// `ECHO_REQUEST` or `ECHO_REPLY`.
    pub msg_type: u8,
    pub id: u16,
    pub seq: u16,
    pub payload: Vec<u8>,
}

/// The first problem with parsing `data` as an Echo Request, if any: too short for the header,
/// a checksum that does not verify, or another type or code.
pub open spec fn echo_parse_error(data: Seq<u8>) -> Option<StackError> {
    if data.len() < 8 {
        Some(StackError::TooShortForEchoHeader { len: data.len() as usize })
    } else if internet_checksum(data) != 0 {
        Some(StackError::InvalidEchoChecksum)
    } else if data[0] != ECHO_REQUEST || data[1] != 0 {
        Some(StackError::NotEchoRequest { msg_type: data[0], code: data[1] })
    } else {
        None
    }
}

/// The bytes of `m` before its checksum is filled in: the header with a zero code and checksum,
/// then the payload.
pub open spec fn echo_unchecked(m: EchoMsg) -> Seq<u8> {
    seq![m.msg_type, 0u8, 0u8, 0u8] + be16_bytes(m.id) + be16_bytes(m.seq) + m.payload@
}

/// The bytes of `m` as sent, with the checksum filled in.
pub open spec fn echo_bytes(m: EchoMsg) -> Seq<u8> {
    let u = echo_unchecked(m);
    let c = be16_bytes(internet_checksum(u));
    u.update(2, c[0]).update(3, c[1])
}

/// Why writing `m` into a buffer of `buf_len` bytes fails, if it does: the buffer cannot hold it,
/// or its length overflows `u16`.
pub open spec fn echo_write_error(m: EchoMsg, buf_len: int) -> Option<StackError> {
    let len = 8 + m.payload@.len();
    if buf_len < 8 {
        Some(StackError::RangeOutOfRange { start: 0, end: 8, len: buf_len as usize })
    } else if len > usize::MAX {
        Some(StackError::Overflowed)
    } else if buf_len < len {
        Some(StackError::RangeOutOfRange { start: 8, end: len as usize, len: buf_len as usize })
    } else if len > 0xFFFF {
        Some(StackError::Overflowed)
    } else {
        None
    }
}

/// Whether `m` is what parsing `data` (an Echo Request travelling between `ip_pair`) gives.
pub open spec fn echo_parsed(m: EchoMsg, data: Seq<u8>, ip_pair: Ipv4AddrPair) -> bool {
    &&& m.ip_pair == ip_pair
    &&& m.msg_type == ECHO_REQUEST
    &&& m.id == be16(data[4], data[5])
    &&& m.seq == be16(data[6], data[7])
    &&& m.payload@ == data.subrange(8, data.len() as int)
}

/// Whether `r` is the Echo Reply to `m`: sent back the way `m` came, with the same identifier,
/// sequence number, and payload.
pub open spec fn echo_reply_of(r: EchoMsg, m: EchoMsg) -> bool {
    &&& r.ip_pair == m.ip_pair.swapped_spec()
    &&& r.msg_type == ECHO_REPLY
    &&& r.id == m.id
    &&& r.seq == m.seq
    &&& r.payload@ == m.payload@
}

/// The outcome of writing `m` into the buffer `buf`: the bytes written and the buffer after, or
/// the error (with the buffer untouched).
pub open spec fn echo_write_outcome(m: EchoMsg, buf: Seq<u8>) -> Result<(u16, Seq<u8>), StackError> {
    match echo_write_error(m, buf.len() as int) {
        Some(e) => Err(e),
        None => {
            let n = 8 + m.payload@.len();
            Ok(((n as u16), echo_bytes(m) + buf.subrange(n as int, buf.len() as int)))
        },
    }
}

impl EchoMsg {
    /// Parses `data` as an Echo Request travelling between `ip_pair`.
    pub fn parse(data: &[u8], ip_pair: Ipv4AddrPair) -> (r: Result<EchoMsg, StackError>)
        ensures
            (r is Ok) == (echo_parse_error(data@) is None),
            (r matches Err(e) ==> echo_parse_error(data@) == Some(e)),
            (r matches Ok(m) ==> echo_parsed(m, data@, ip_pair)),
    {
        if data.len() < ECHO_HDR_LEN {
            return Err(StackError::TooShortForEchoHeader { len: data.len() });
        }
        if calculate(data) != 0 {
            return Err(StackError::InvalidEchoChecksum);
        }
        if data[0] != ECHO_REQUEST || data[1] != 0 {
            return Err(StackError::NotEchoRequest { msg_type: data[0], code: data[1] });
        }
        Ok(EchoMsg {
            ip_pair,
            msg_type: ECHO_REQUEST,
            id: read_be16(data, 4),
            seq: read_be16(data, 6),
            payload: tail_from(data, ECHO_HDR_LEN),
        })
    }

    /// The Echo Reply to `self`: sent back the way it came, with the same identifier, sequence
    /// number, and payload.
    pub fn create_reply(&self) -> (r: EchoMsg)
        ensures
            echo_reply_of(r, *self),
    {
        EchoMsg {
            ip_pair: self.ip_pair.swapped(),
            msg_type: ECHO_REPLY,
            id: self.id,
            seq: self.seq,
            payload: self.payload.clone(),
        }
    }

    /// Writes the message into the start of `buf`, filling in the checksum, and returns the
    /// number of bytes written. On error, `buf` is untouched.
    pub fn write_into(&self, buf: &mut [u8]) -> (r: Result<u16, StackError>)
        ensures
            (r is Ok) == (echo_write_error(*self, old(buf)@.len() as int) is None),
            (r matches Err(e) ==> echo_write_error(*self, old(buf)@.len() as int) == Some(e)
                && final(buf)@ == old(buf)@),
            (r matches Ok(n) ==> n == 8 + self.payload@.len() && final(buf)@ == echo_bytes(*self)
                + old(buf)@.subrange(n as int, old(buf)@.len() as int)),
            (match r {
                Ok(n) => echo_write_outcome(*self, old(buf)@) == Ok::<_, StackError>((n, final(buf)@)),
                Err(e) => echo_write_outcome(*self, old(buf)@) == Err::<(u16, Seq<u8>), _>(e),
            }),
    {
        let plen = self.payload.len();
        if buf.len() < ECHO_HDR_LEN {
            return Err(StackError::RangeOutOfRange { start: 0, end: ECHO_HDR_LEN, len: buf.len() });
        }
        if plen > usize::MAX - ECHO_HDR_LEN {
            return Err(StackError::Overflowed);
        }
        if buf.len() - ECHO_HDR_LEN < plen {
            return Err(
                StackError::RangeOutOfRange { start: ECHO_HDR_LEN, end: ECHO_HDR_LEN + plen, len: buf.len() },
            );
        }
        if plen > 0xFFFF - ECHO_HDR_LEN {
            return Err(StackError::Overflowed);
        }
        let mut bytes: Vec<u8> = Vec::new();
        bytes.push(self.msg_type);
        bytes.push(0);
        // Checksum (zero until calculated)
        bytes.push(0);
        bytes.push(0);
        push_be16(&mut bytes, self.id);
        push_be16(&mut bytes, self.seq);
        push_all(&mut bytes, self.payload.as_slice());
        assert(bytes@ =~= echo_unchecked(*self));
        let cksum = calculate(bytes.as_slice());
        write_be16(bytes.as_mut_slice(), 2, cksum);
        assert(bytes@ =~= echo_bytes(*self));
        copy_into(buf, bytes.as_slice());
        Ok(usize_to_u16(ECHO_HDR_LEN + plen))
    }
}

/// The bytes of a written message carry a checksum that verifies, and read back its type,
/// identifier, sequence number, and payload.
pub proof fn lemma_echo_bytes_verify(m: EchoMsg)
    ensures
        internet_checksum(echo_bytes(m)) == 0,
        echo_bytes(m)[0] == m.msg_type,
        echo_bytes(m)[1] == 0,
        be16(echo_bytes(m)[4], echo_bytes(m)[5]) == m.id,
        be16(echo_bytes(m)[6], echo_bytes(m)[7]) == m.seq,
        echo_bytes(m).subrange(8, echo_bytes(m).len() as int) == m.payload@,
{
    let u = echo_unchecked(m);
    lemma_embedded_checksum_validates(u, 1);
    lemma_be16_roundtrip(m.id);
    lemma_be16_roundtrip(m.seq);
    assert(echo_bytes(m).subrange(8, echo_bytes(m).len() as int) =~= m.payload@);
}

/// Parsing the bytes of a written Echo Request gives back its identifier, sequence number, and
/// payload.
pub proof fn lemma_echo_request_roundtrip(m: EchoMsg)
    requires
        m.msg_type == ECHO_REQUEST,
    ensures
        echo_parse_error(echo_bytes(m)) is None,
{
    lemma_echo_bytes_verify(m);
}

/// The one-line description of `m`: whether it is a request or a reply, its identifier, and its
/// sequence number.
pub open spec fn echo_text(m: EchoMsg) -> Seq<char> {
    "ICMP | "@ + (if m.msg_type == ECHO_REQUEST {
        "Echo Request"@
    } else {
        "Echo Reply"@
    }) + " | id="@ + decimal(m.id as nat) + " seq="@ + decimal(m.seq as nat)
}

impl PrettyProtocol for EchoMsg {
    fn to_text(&self) -> (r: String)
        ensures
            r@ == echo_text(*self),
    {
        let mut s = String::from_str("ICMP | ");
        if self.msg_type == ECHO_REQUEST {
            s.append("Echo Request");
        } else {
            s.append("Echo Reply");
        }
        s.append(" | id=");
        push_decimal(&mut s, self.id as u64);
        s.append(" seq=");
        push_decimal(&mut s, self.seq as u64);
        assert(s@ =~= echo_text(*self));
        s
    }

    fn pretty_payload(&self, include_content: bool) -> (r: PrettyPayload<'_>)
        ensures
            r.data@ == self.payload@,
            r.include_content == include_content,
    {
        PrettyPayload { data: self.payload.as_slice(), include_content }
    }
}

} // verus!
