use typenet::protocol::tcp::flags::TcpFlags;
use typenet::protocol::tcp::payload::TcpPayload;

#[test]
fn round_trips_all_variants() {
    for (flags, byte) in [
        (TcpFlags::Syn, 0b_0000_0010),
        (TcpFlags::SynAck, 0b_0001_0010),
        (TcpFlags::Ack, 0b_0001_0000),
        (TcpFlags::FinAck, 0b_0001_0001),
        (TcpFlags::Rst, 0b_0000_0100),
        (TcpFlags::RstAck, 0b_0001_0100),
    ] {
        assert_eq!(flags.to_byte(), byte);
        assert_eq!(TcpFlags::try_from_byte(byte), Ok(flags));
    }
}

#[test]
fn masks_off_irrelevant_bits() {
    // CWR (0x80), ECE (0x40), URG (0x20), and PSH (0x08) bits should be ignored
    assert_eq!(TcpFlags::try_from_byte(0b1110_1010), Ok(TcpFlags::Syn));
}

#[test]
fn errors_on_invalid_combinations() {
    assert!(TcpFlags::try_from_byte(0b_0000_0000).is_err(), "No flags");
    assert!(TcpFlags::try_from_byte(0b_0000_0001).is_err(), "FIN alone");
    assert!(TcpFlags::try_from_byte(0b_0000_0011).is_err(), "SYN + FIN");
}

#[test]
fn creates_valid_payload_when_length_in_range() {
    let max_array = vec![b'H'; usize::from(u16::MAX)];
    for data in ["H".as_bytes(), "Hello".as_bytes(), max_array.as_slice()] {
        let payload = TcpPayload::try_from_bytes(data.to_vec())
            .expect("in range")
            .expect("not empty");
        assert_eq!(payload.as_bytes(), data);
        assert_eq!(usize::from(payload.len()), data.len());
    }
}

#[test]
fn ok_none_for_empty() {
    assert_eq!(TcpPayload::try_from_bytes(Vec::new()), Ok(None));
}

#[test]
fn err_for_too_large() {
    let mut data = vec![b'H'; usize::from(u16::MAX)];
    data.push(b'e');
    assert!(matches!(
        TcpPayload::try_from_bytes(data),
        Err(e) if e.message().contains("longer than")
    ));
}

#[test]
fn flag_names_are_readable() {
    assert_eq!(TcpFlags::SynAck.name(), "SYN-ACK");
    assert_eq!(TcpFlags::RstAck.name(), "RST-ACK");
}
