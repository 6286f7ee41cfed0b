use crate::error::StackError;
use vstd::prelude::*;

verus! {

/// The combinations of the ACK, RST, SYN, and FIN control bits this stack sends and accepts.
#[derive(Clone, Copy, Debug, PartialEq, Eq, Structural)]
pub enum TcpFlags {
    Syn,
    SynAck,
    Ack,
    FinAck,
    Rst,
    RstAck,
}

/// "Acknowledgment field is significant" (RFC 9293, Section 3.1).
pub const ACK_BIT: u8 = 0b0001_0000;

/// "Reset the connection."
pub const RST_BIT: u8 = 0b0000_0100;

/// "Synchronize sequence numbers."
pub const SYN_BIT: u8 = 0b0000_0010;

/// "No more data from sender."
pub const FIN_BIT: u8 = 0b0000_0001;

/// Mask of only the bits this stack considers.
pub const FLAG_MASK: u8 = 0b0001_0111;

/// The flags byte for `f` (other bits zero).
pub open spec fn flags_byte(f: TcpFlags) -> u8 {
    match f {
        TcpFlags::Syn => 0x02,
        TcpFlags::SynAck => 0x12,
        TcpFlags::Ack => 0x10,
        TcpFlags::FinAck => 0x11,
        TcpFlags::Rst => 0x04,
        TcpFlags::RstAck => 0x14,
    }
}

/// The flag combination for the ACK, RST, SYN, and FIN bits of `masked` (other bits already
/// cleared), if it is one this stack handles.
pub open spec fn flags_from_masked(masked: u8) -> Option<TcpFlags> {
    if masked == 0x02 {
        Some(TcpFlags::Syn)
    } else if masked == 0x10 {
        Some(TcpFlags::Ack)
    } else if masked == 0x04 {
        Some(TcpFlags::Rst)
    } else if masked == 0x12 {
        Some(TcpFlags::SynAck)
    } else if masked == 0x11 {
        Some(TcpFlags::FinAck)
    } else if masked == 0x14 {
        Some(TcpFlags::RstAck)
    } else {
        None
    }
}

/// The flag combination of a received flags byte, ignoring the CWR, ECE, URG, and PSH bits.
pub open spec fn flags_from_byte(value: u8) -> Option<TcpFlags> {
    flags_from_masked(value & FLAG_MASK)
}

impl TcpFlags {
    /// The flags byte for `self`, with all other bits zero.
    pub fn to_byte(self) -> (r: u8)
        ensures
            r == flags_byte(self),
    {
        match self {
            TcpFlags::Syn => 0x02,
            TcpFlags::SynAck => 0x12,
            TcpFlags::Ack => 0x10,
            TcpFlags::FinAck => 0x11,
            TcpFlags::Rst => 0x04,
            TcpFlags::RstAck => 0x14,
        }
    }

    /// Reads the flag combination of a received flags byte, ignoring the CWR, ECE, URG, and PSH
    /// bits, or fails for a combination this stack does not handle.
    pub fn try_from_byte(value: u8) -> (r: Result<TcpFlags, StackError>)
        ensures
            (r is Ok) == (flags_from_byte(value) is Some),
            (r matches Ok(f) ==> flags_from_byte(value) == Some(f)),
            (r matches Err(e) ==> e == (StackError::InvalidTcpFlags { bits: value & FLAG_MASK })),
    {
        let masked = value & FLAG_MASK;
        if masked == SYN_BIT {
            Ok(TcpFlags::Syn)
        } else if masked == ACK_BIT {
            Ok(TcpFlags::Ack)
        } else if masked == RST_BIT {
            Ok(TcpFlags::Rst)
        } else if masked == 0x12 {
            Ok(TcpFlags::SynAck)
        } else if masked == 0x11 {
            Ok(TcpFlags::FinAck)
        } else if masked == 0x14 {
            Ok(TcpFlags::RstAck)
        } else {
            Err(StackError::InvalidTcpFlags { bits: masked })
        }
    }

    /// The flags as text, e.g. `"SYN-ACK"`.
    pub fn name(self) -> (r: &'static str)
        ensures
            r@ == flags_name(self)@,
    {
        match self {
            TcpFlags::Syn => "SYN",
            TcpFlags::SynAck => "SYN-ACK",
            TcpFlags::Ack => "ACK",
            TcpFlags::FinAck => "FIN-ACK",
            TcpFlags::Rst => "RST",
            TcpFlags::RstAck => "RST-ACK",
        }
    }
}

/// The text naming `f`.
pub open spec fn flags_name(f: TcpFlags) -> &'static str {
    match f {
        TcpFlags::Syn => "SYN",
        TcpFlags::SynAck => "SYN-ACK",
        TcpFlags::Ack => "ACK",
        TcpFlags::FinAck => "FIN-ACK",
        TcpFlags::Rst => "RST",
        TcpFlags::RstAck => "RST-ACK",
    }
}

/// The byte written for any flag combination reads back as the same combination, whatever the
/// other bits of the byte are set to.
pub proof fn lemma_flags_roundtrip(f: TcpFlags, other_bits: u8)
    requires
        other_bits & FLAG_MASK == 0,
    ensures
        flags_from_byte(flags_byte(f) | other_bits) == Some(f),
{
    let b = flags_byte(f);
    assert((b | other_bits) & 0x17u8 == b & 0x17u8) by (bit_vector)
        requires
            other_bits & 0x17u8 == 0,
    ;
    assert(0x02u8 & 0x17u8 == 0x02u8) by (bit_vector);
    assert(0x12u8 & 0x17u8 == 0x12u8) by (bit_vector);
    assert(0x10u8 & 0x17u8 == 0x10u8) by (bit_vector);
    assert(0x11u8 & 0x17u8 == 0x11u8) by (bit_vector);
    assert(0x04u8 & 0x17u8 == 0x04u8) by (bit_vector);
    assert(0x14u8 & 0x17u8 == 0x14u8) by (bit_vector);
}

} // verus!
