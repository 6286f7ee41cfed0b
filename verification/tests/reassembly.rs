use typenet::protocol::tcp::payload::TcpPayload;
use typenet::protocol::tcp::reassembly::TcpReassembly;
use typenet::protocol::tcp::seq_space::{SeqOffset, SeqPoint};

fn test_payload(s: &str) -> TcpPayload {
    TcpPayload::try_from_bytes(s.as_bytes().to_vec())
        .expect("short payload")
        .expect("Test payload must not be empty")
}

#[test]
fn drains_segment_starting_at_rcv_nxt() {
    let mut reassembly = TcpReassembly::new();
    let rcv_nxt = SeqPoint::new(100);
    reassembly.insert(rcv_nxt, test_payload("abc"));

    let mut out = Vec::new();
    let new_rcv_nxt = reassembly.drain_contiguous(rcv_nxt, &mut out);

    assert_eq!(out, b"abc");
    assert_eq!(new_rcv_nxt, rcv_nxt.add(SeqOffset::new(3)));
    assert_eq!(reassembly.len(), 0);
}

#[test]
fn does_not_drain_when_gap_remains_before_buffered_segment() {
    let mut reassembly = TcpReassembly::new();
    let rcv_nxt = SeqPoint::new(100);
    reassembly.insert(rcv_nxt.add(SeqOffset::new(3)), test_payload("later"));

    let mut out = Vec::new();
    let new_rcv_nxt = reassembly.drain_contiguous(rcv_nxt, &mut out);

    assert!(out.is_empty());
    assert_eq!(new_rcv_nxt, rcv_nxt);
    assert_eq!(reassembly.len(), 1);
}

#[test]
fn drains_multiple_contiguous_segments_once_gap_closes() {
    let mut reassembly = TcpReassembly::new();
    let rcv_nxt = SeqPoint::new(100);

    // "load" arrives first, buffered as out-of-order
    reassembly.insert(rcv_nxt.add(SeqOffset::new(3)), test_payload("load"));
    // "pay" fills the gap
    reassembly.insert(rcv_nxt, test_payload("pay"));

    let mut out = Vec::new();
    let new_rcv_nxt = reassembly.drain_contiguous(rcv_nxt, &mut out);

    assert_eq!(out, b"payload");
    assert_eq!(new_rcv_nxt, rcv_nxt.add(SeqOffset::new(7)));
    assert_eq!(reassembly.len(), 0);
}

#[test]
fn discards_buffered_segment_that_starts_before_rcv_nxt() {
    let mut reassembly = TcpReassembly::new();
    let rcv_nxt = SeqPoint::new(100);
    reassembly.insert(SeqPoint::new(90), test_payload("stale"));

    let mut out = Vec::new();
    let new_rcv_nxt = reassembly.drain_contiguous(rcv_nxt, &mut out);

    assert!(out.is_empty());
    assert_eq!(new_rcv_nxt, rcv_nxt);
    assert_eq!(reassembly.len(), 0);
}

#[test]
fn keeps_longer_segment_when_shorter_arrives_with_same_seq() {
    let mut reassembly = TcpReassembly::new();
    let seq = SeqPoint::new(100);

    reassembly.insert(seq, test_payload("longer"));
    reassembly.insert(seq, test_payload("short"));

    let mut out = Vec::new();
    reassembly.drain_contiguous(seq, &mut out);

    assert_eq!(out, b"longer");
}

#[test]
fn replaces_shorter_segment_when_longer_arrives_with_same_seq() {
    let mut reassembly = TcpReassembly::new();
    let seq = SeqPoint::new(100);

    reassembly.insert(seq, test_payload("short"));
    reassembly.insert(seq, test_payload("longer"));

    let mut out = Vec::new();
    reassembly.drain_contiguous(seq, &mut out);

    assert_eq!(out, b"longer");
}

#[test]
fn fin_not_reached_when_no_fin_marked() {
    let reassembly = TcpReassembly::new();
    assert!(!reassembly.fin_reached(SeqPoint::new(100)));
}

#[test]
fn fin_not_reached_before_rcv_nxt_catches_up() {
    let mut reassembly = TcpReassembly::new();
    reassembly.mark_fin(SeqPoint::new(107));
    assert!(!reassembly.fin_reached(SeqPoint::new(100)));
}

#[test]
fn fin_reached_once_rcv_nxt_catches_up() {
    let mut reassembly = TcpReassembly::new();
    reassembly.mark_fin(SeqPoint::new(107));
    assert!(reassembly.fin_reached(SeqPoint::new(107)));
}

#[test]
fn fin_reached_after_draining_buffered_data_up_to_fin_seq() {
    let mut reassembly = TcpReassembly::new();
    let rcv_nxt = SeqPoint::new(100);

    // FIN-carrying segment arrives first, out of order, its FIN sitting past its own payload
    reassembly.insert(rcv_nxt.add(SeqOffset::new(3)), test_payload("load"));
    reassembly.mark_fin(rcv_nxt.add(SeqOffset::new(7)));
    assert!(!reassembly.fin_reached(rcv_nxt));

    // "pay" fills the gap before the FIN-carrying segment
    reassembly.insert(rcv_nxt, test_payload("pay"));

    let mut out = Vec::new();
    let new_rcv_nxt = reassembly.drain_contiguous(rcv_nxt, &mut out);

    assert_eq!(out, b"payload");
    assert!(reassembly.fin_reached(new_rcv_nxt));
}

#[test]
fn first_fin_position_is_kept() {
    let mut reassembly = TcpReassembly::new();
    reassembly.mark_fin(SeqPoint::new(107));
    reassembly.mark_fin(SeqPoint::new(200));
    assert_eq!(reassembly.fin_position(), Some(107));
}
