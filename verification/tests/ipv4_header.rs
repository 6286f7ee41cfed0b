use typenet::checksum::calculate;
use typenet::ipv4_header::Ipv4Header;
use typenet::protocol::Protocol;

fn octets(ip: u32) -> [u8; 4] {
    ip.to_be_bytes()
}

#[test]
fn correctly_parses_valid_pkt() {
    const DATA: [u8; 20] = [
        0x45, 0x00, 0x00, 0x3C, 0x1C, 0x46, 0x40, 0x00, 0x40, 0x06, 0xA6, 0x4D, 192, 168, 1, 100,
        172, 16, 10, 12,
    ];

    let (hdr, payload) = Ipv4Header::parse(&DATA).expect("valid header");

    assert_eq!(hdr.total_len, 60);
    assert_eq!(hdr.protocol, Protocol::Tcp);
    assert_eq!(octets(hdr.ip_pair.src), [192, 168, 1, 100]);
    assert_eq!(octets(hdr.ip_pair.dst), [172, 16, 10, 12]);
    assert_eq!(payload, &DATA[20..]);
}

#[test]
fn parsing_fails_if_too_short() {
    const DATA: [u8; 3] = [0x45, 0x00, 0x00]; // Only 3 bytes
    assert!(matches!(Ipv4Header::parse(&DATA), Err(e) if e.message().contains("Too short")));
}

#[test]
fn parsing_fails_on_invalid_cksum() {
    const DATA: [u8; 20] = [
        0x45, 0x00, 0x00, 0x3C, 0x1C, 0x46, 0x40, 0x00, 0x40, 0x06, 0x00, 0x00, 192, 168, 1, 100,
        172, 16, 10, 12,
    ];
    assert!(matches!(Ipv4Header::parse(&DATA), Err(e) if e.message().contains("checksum")));
}

#[test]
fn parsing_fails_if_not_ipv4() {
    const DATA: [u8; 24] = [
        0x60, 0x00, 0x00, 0x00, 0x00, 0x14, 0x06, 0x40, 0x20, 0x01, 0x0D, 0xB8, 0x00, 0x00, 0x00,
        0x00, 0x00, 0x00, 0x00, 0x00, 0x00, 0x00, 0x00, 0x01,
    ];
    assert!(matches!(Ipv4Header::parse(&DATA), Err(e) if e.message().contains("IPv6")));
}

#[test]
fn creates_valid_ipv4_hdr_for_reply() {
    const REQUEST: [u8; 20] = [
        0x45, 0x00, 0x00, 0x3C, 0x1C, 0x46, 0x40, 0x00, 0x40, 0x11, 0xA6, 0x42, 192, 168, 1, 100,
        172, 16, 10, 12,
    ];

    let (hdr, _) = Ipv4Header::parse(&REQUEST).expect("valid header");
    let mut reply = [0u8; 1500];
    let proto_len = 48 - 20; // Total length - IPv4 reply header length
    let reply_hdr =
        Ipv4Header::try_new(hdr.protocol, hdr.ip_pair.swapped(), proto_len).expect("fits");
    reply_hdr.write_into(&mut reply);
    assert_eq!(reply_hdr.total_len, 48);

    assert_eq!(reply[0], 0x45); // Version 4, IHL 5
    assert_eq!(reply[1], 0x00); // DSCP/ECN
    assert_eq!(&reply[2..4], &[0x00, 0x30]); // Total length: 48
    assert_eq!(&reply[4..6], &[0x00, 0x00]); // Identification: 0
    assert_eq!(&reply[6..8], &[0x40, 0x00]); // Flags: Don't Fragment
    assert_eq!(reply[8], 64); // TTL: 64
    assert_eq!(reply[9], 0x11); // Protocol: 17 (UDP)

    // Verify IPs are swapped
    assert_eq!(&reply[12..16], &[172, 16, 10, 12]);
    assert_eq!(&reply[16..20], &[192, 168, 1, 100]);

    // Verify IP header checksum is valid
    assert_eq!(calculate(&reply[..20]), 0);
}

#[test]
fn written_header_parses_back() {
    let pair = typenet::addr_pairs::Ipv4AddrPair::new(0x0A00_0001, 0x0A00_0002);
    let hdr = Ipv4Header::try_new(Protocol::Udp, pair, 12).expect("fits");
    let mut buf = [0u8; 32];
    hdr.write_into(&mut buf);
    let (parsed, payload) = Ipv4Header::parse(&buf).expect("valid header");
    assert_eq!(parsed, hdr);
    assert_eq!(payload.len(), 12);
}

#[test]
fn try_new_rejects_lengths_that_overflow() {
    let pair = typenet::addr_pairs::Ipv4AddrPair::new(1, 2);
    assert!(Ipv4Header::try_new(Protocol::Tcp, pair, u16::MAX - 20).is_ok());
    assert!(matches!(
        Ipv4Header::try_new(Protocol::Tcp, pair, u16::MAX - 19),
        Err(e) if e.message().contains("Overflowed")
    ));
}
