use typenet::config::ConfigVar;
use typenet::error::StackError;

#[test]
fn messages_carry_the_values_of_the_error() {
    assert_eq!(StackError::TooShortForIpv4Header { len: 5 }.message(), "Too short for IPv4 header (5 bytes)");
    assert_eq!(StackError::UnexpectedIpVersion { version: 7 }.message(), "Unexpected IP version 7");
    assert_eq!(StackError::UnsupportedProtocol { protocol: 58 }.message(), "Unsupported protocol 58");
    assert_eq!(StackError::TooShortForTcpHeader { len: 19 }.message(), "Too short for TCP header (19 bytes)");
    assert_eq!(
        StackError::InvalidTcpFlags { bits: 0x03 }.message(),
        "Invalid TCP flag combination: ACK=false RST=false SYN=true FIN=true"
    );
    assert_eq!(
        StackError::NotEchoRequest { msg_type: 0, code: 0 }.message(),
        "Unsupported ICMP message (not an echo request): type 0 code 0"
    );
    assert_eq!(StackError::InvalidUdpLength { field: 3 }.message(), "Invalid UDP length 3");
    assert_eq!(
        StackError::UnparsableConfigVar { var: ConfigVar::GraceSecs }.message(),
        "Environment variable TYPENET_GRACE_SECS present but could not be parsed"
    );
}

#[test]
fn wrapped_errors_are_prefixed() {
    let skipped = StackError::SkippingPacket(Box::new(StackError::Ipv6Packet));
    assert_eq!(skipped.message(), "Skipping packet: IPv6 packet");
    let failed = StackError::CreatingReply(Box::new(StackError::UnackedPastNext));
    assert_eq!(failed.message(), "Error creating reply: SND.UNA does not precede or equal SND.NXT");
}
