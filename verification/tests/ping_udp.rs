use typenet::application::ServerApp;
use typenet::addr_pairs::{Ipv4AddrPair, PortPair};
use typenet::checksum::calculate;
use typenet::error::StackError;
use typenet::ipv4_header::Ipv4Header;
use typenet::protocol::engine::{encode_packet, Engine};
use typenet::protocol::ping::{EchoMsg, ECHO_REPLY, ECHO_REQUEST};
use typenet::protocol::pseudo_header::pseudo_hdr_cksum;
use typenet::protocol::router::{Encode, ProtocolRouter};
use typenet::protocol::tcp::connections::{RtoConfig, TcpConnections};
use typenet::protocol::udp::UdpDatagram;
use typenet::protocol::Protocol;

const CLIENT_IP: u32 = 0x0A00_0002;
const SERVER_IP: u32 = 0x0A00_0001;
const INCOMING: Ipv4AddrPair = Ipv4AddrPair { src: CLIENT_IP, dst: SERVER_IP };

fn request(id: u16, seq: u16, payload: &[u8]) -> EchoMsg {
    EchoMsg { ip_pair: INCOMING, msg_type: ECHO_REQUEST, id, seq, payload: payload.to_vec() }
}

fn written(msg: &impl Encode) -> Vec<u8> {
    let mut buf = [0u8; 1500];
    let n = msg.write_into(&mut buf).expect("fits");
    buf[..usize::from(n)].to_vec()
}

fn echo_bytes(msg: &EchoMsg) -> Vec<u8> {
    let mut buf = [0u8; 1500];
    let n = msg.write_into(&mut buf).expect("fits");
    buf[..usize::from(n)].to_vec()
}

#[test]
fn echo_request_parses_and_reply_mirrors_it() {
    let bytes = echo_bytes(&request(0x1234, 7, b"ping!"));
    assert_eq!(calculate(&bytes), 0, "the written checksum verifies");

    let parsed = EchoMsg::parse(&bytes, INCOMING).expect("valid echo request");
    assert_eq!(parsed, request(0x1234, 7, b"ping!"));

    let reply = parsed.create_reply();
    assert_eq!(reply.ip_pair, INCOMING.swapped());
    assert_eq!(reply.msg_type, ECHO_REPLY);
    assert_eq!((reply.id, reply.seq), (0x1234, 7));
    assert_eq!(reply.payload, b"ping!");

    let reply_bytes = echo_bytes(&reply);
    assert_eq!(reply_bytes[0], 0, "type 0 is an echo reply");
    assert_eq!(calculate(&reply_bytes), 0);
    assert_eq!(&reply_bytes[8..], b"ping!");
}

#[test]
fn echo_errors() {
    assert_eq!(
        EchoMsg::parse(&[8, 0, 0], INCOMING),
        Err(StackError::TooShortForEchoHeader { len: 3 })
    );

    let mut bytes = echo_bytes(&request(1, 2, b"x"));
    bytes[8] ^= 0xFF;
    assert_eq!(EchoMsg::parse(&bytes, INCOMING), Err(StackError::InvalidEchoChecksum));

    let reply_bytes = echo_bytes(&request(1, 2, b"x").create_reply());
    assert_eq!(
        EchoMsg::parse(&reply_bytes, INCOMING),
        Err(StackError::NotEchoRequest { msg_type: 0, code: 0 })
    );
}

fn datagram(payload: &[u8]) -> UdpDatagram {
    UdpDatagram { ip_pair: INCOMING, ports: PortPair::new(5000, 7), payload: payload.to_vec() }
}

#[test]
fn udp_datagram_round_trips_and_reply_swaps_ports() {
    let d = datagram(b"hello udp");
    let bytes = written(&ProtocolRouter::Udp(datagram(b"hello udp")));
    assert_eq!(bytes.len(), 8 + 9);
    assert_eq!(&bytes[4..6], &[0, 17], "the length field covers header and payload");
    assert_eq!(pseudo_hdr_cksum(&bytes, INCOMING, Protocol::Udp), Ok(0));

    let parsed = UdpDatagram::parse(&bytes, INCOMING).expect("valid datagram");
    assert_eq!(parsed, d);

    let reply = parsed.create_reply(ServerApp::Echo);
    assert_eq!(reply.ip_pair, INCOMING.swapped());
    assert_eq!(reply.ports, PortPair::new(7, 5000));
    assert_eq!(reply.payload, b"hello udp");
}

#[test]
fn udp_errors_and_missing_checksum() {
    assert_eq!(
        UdpDatagram::parse(&[0; 7], INCOMING),
        Err(StackError::TooShortForUdpHeader { len: 7 })
    );

    let mut bytes = written(&ProtocolRouter::Udp(datagram(b"abc")));
    bytes[5] = 20; // length past the data
    assert_eq!(UdpDatagram::parse(&bytes, INCOMING), Err(StackError::InvalidUdpLength { field: 20 }));

    let mut bytes = written(&ProtocolRouter::Udp(datagram(b"abc")));
    bytes[8] ^= 1;
    assert_eq!(UdpDatagram::parse(&bytes, INCOMING), Err(StackError::InvalidUdpChecksum));

    // A zero checksum field means no checksum was computed, so the corrupted byte goes unnoticed
    bytes[6] = 0;
    bytes[7] = 0;
    let parsed = UdpDatagram::parse(&bytes, INCOMING).expect("no checksum to verify");
    assert_eq!(parsed.payload, [b'a' ^ 1, b'b', b'c']);

    // Bytes past the length field are ignored
    let mut padded = written(&ProtocolRouter::Udp(datagram(b"abc")));
    padded.extend_from_slice(&[0xEE; 4]);
    assert_eq!(UdpDatagram::parse(&padded, INCOMING).expect("valid").payload, b"abc");
}

#[test]
fn engine_answers_ping_and_udp_without_state() {
    let mut engine = Engine::new(RtoConfig::default(), 15, 1_000);

    let ping = encode_packet(&ProtocolRouter::Icmp(request(9, 1, b"abc"))).expect("encodes").bytes;
    let outcome = engine.handle_packet(&ping, 0, 0).expect("handled");
    let reply = outcome.reply.expect("echo requests are always answered");
    let reply_bytes = encode_packet(&reply).expect("encodes").bytes;
    let (hdr, body) = Ipv4Header::parse(&reply_bytes).expect("valid IPv4");
    assert_eq!(hdr.protocol, Protocol::Icmp);
    assert_eq!(hdr.ip_pair, INCOMING.swapped());
    assert_eq!(body[0], ECHO_REPLY);
    assert_eq!(&body[8..], b"abc");

    let udp = encode_packet(&ProtocolRouter::Udp(datagram(b"xyz"))).expect("encodes").bytes;
    let outcome = engine.handle_packet(&udp, 0, 0).expect("handled");
    let reply = outcome.reply.expect("datagrams are always answered");
    assert_eq!(reply.proto(), Protocol::Udp);
    assert_eq!(reply.get_ip_pair(), INCOMING.swapped());

    assert_eq!(engine.connection_count(), 0, "neither creates connection state");
}

#[test]
fn unsupported_protocol_is_skipped() {
    let bytes = encode_packet(&ProtocolRouter::Udp(datagram(b"xyz"))).expect("encodes").bytes;
    let mut bytes = bytes;
    bytes[9] = 2; // IGMP
    // Fix the header checksum so that only the protocol number is wrong
    bytes[10] = 0;
    bytes[11] = 0;
    let c = calculate(&bytes[..20]);
    bytes[10..12].copy_from_slice(&c.to_be_bytes());
    let mut engine = Engine::new(RtoConfig::default(), 15, 1_000);
    assert!(matches!(
        engine.handle_packet(&bytes, 0, 0),
        Err(StackError::SkippingPacket(inner)) if *inner == StackError::UnsupportedProtocol { protocol: 2 }
    ));
    let _ = TcpConnections::default();
}
