use typenet::application::{EchoApp, ServerApp};
use typenet::error::StackError;

#[test]
fn echo_udp_echoes_without_allocating() {
    const PAYLOAD: &[u8] = b"Hello!!!";

    let payload = PAYLOAD.to_vec();
    let start = payload.as_ptr();
    let echo = ServerApp::Echo.handle_udp(payload);

    assert_eq!(echo, PAYLOAD);
    assert_eq!(echo.as_ptr(), start, "Should not allocate for a trivial echo");
}

#[test]
fn echo_tcp_appends_data_to_send_buffer() {
    let mut send_buffer = Vec::from(*b"Hello");
    ServerApp::Echo.handle_tcp(b"World", &mut send_buffer);
    assert_eq!(send_buffer, b"HelloWorld");
}

#[test]
fn shout_udp_capitalizes_and_allocates() {
    let payload = b"Hello!!!".to_vec();
    let start = payload.as_ptr();
    let shout = ServerApp::Shout.handle_udp(payload);
    assert_eq!(shout, Vec::from(*b"HELLO!!!"));
    assert_ne!(shout.as_ptr(), start, "Should allocate when transforming input");
}

#[test]
fn shout_tcp_appends_capitalized_data_to_send_buffer() {
    let mut send_buffer = Vec::from(*b"Hello");
    ServerApp::Shout.handle_tcp(b"World", &mut send_buffer);
    assert_eq!(send_buffer, b"HelloWORLD");
}

#[test]
fn handle_udp_echoes_without_allocating() {
    const PAYLOAD: &[u8] = b"Hello!!!";

    let payload = PAYLOAD.to_vec();
    let start = payload.as_ptr();
    let echo = EchoApp.handle_udp(payload);
    assert_eq!(echo, PAYLOAD);
    assert_eq!(echo.as_ptr(), start, "Should not allocate for a trivial echo");
}

#[test]
fn handle_tcp_appends_data_to_send_buffer() {
    let mut send_buffer = Vec::from(*b"AB");

    EchoApp.handle_tcp(b"CD", &mut send_buffer);

    assert_eq!(send_buffer, b"ABCD");
}

#[test]
fn shout_leaves_non_letters_alone() {
    let all: Vec<u8> = (0..=255).collect();
    let shouted = ServerApp::Shout.handle_udp(all.clone());
    for (b, s) in all.iter().zip(shouted.iter()) {
        assert_eq!(*s, b.to_ascii_uppercase());
    }
}

#[test]
fn app_names_parse_ignoring_case_and_white_space() {
    assert_eq!(ServerApp::parse("echo"), Ok(ServerApp::Echo));
    assert_eq!(ServerApp::parse("  SHOUT\n"), Ok(ServerApp::Shout));
    assert_eq!(ServerApp::parse("Echo"), Ok(ServerApp::Echo));
    assert_eq!(ServerApp::parse("whisper"), Err(StackError::InvalidServerApp));
    assert_eq!(ServerApp::parse(""), Err(StackError::InvalidServerApp));
    assert_eq!(ServerApp::parse("ech"), Err(StackError::InvalidServerApp));
    assert_eq!(ServerApp::default(), ServerApp::Echo);
}
