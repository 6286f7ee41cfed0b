use super::flags::TcpFlags;
use super::payload::{len_or_default, payload_bytes, TcpPayload};
use super::reassembly::{drain_result, SegmentView};
use super::seq_space::{seq_add, seq_dist, seq_precedes, seq_precedes_or_eq, SeqOffset, SeqPoint};
use super::state::{
    ack_update, drain_transmittable, lemma_drain_respects_window, ConnState, ConnView,
    PendingSegment, PendingView, SendInfo, SendInfoView, TcpState, WindowState, MAX_PAYLOAD_LEN,
};
use super::{tcp_fields, TcpFields, TcpSegment};
use crate::application::app_reply;
use crate::error::StackError;
use vstd::prelude::*;

verus! {

/// "RCV.WND": the sequence numbers this server is willing to receive past RCV.NXT. Left at its
/// maximum, since the application takes in all received data at once and leaves none waiting.
pub const RCV_WND: u32 = 0xFFFF;

/// Possible outcomes of checking SEG.SEQ for acceptability.
#[derive(Clone, Copy, Debug, PartialEq, Eq, Structural)]
pub enum SeqCheck {
    /// SEG.SEQ == RCV.NXT exactly.
    InOrder,
    /// SEG.SEQ is in RCV.WND but not in order.
    OutOfOrder,
    /// SEG.SEQ is outside RCV.WND.
    Unacceptable,
}

/// Whether SEG.SEQ falls exactly at RCV.NXT, within RCV.WND but out of order, or outside RCV.WND.
pub open spec fn seq_check(f: TcpFields, c: ConnView) -> SeqCheck {
    if f.seq_num == c.rcv_nxt {
        SeqCheck::InOrder
    } else if seq_precedes_or_eq(c.rcv_nxt, f.seq_num) && seq_precedes(
        f.seq_num,
        seq_add(c.rcv_nxt, RCV_WND as int),
    ) {
        SeqCheck::OutOfOrder
    } else {
        SeqCheck::Unacceptable
    }
}

/// A pure ACK reflecting the connection's current state: SEG.SEQ=SND.NXT, SEG.ACK=RCV.NXT.
pub open spec fn pure_ack(c: ConnView) -> SendInfoView {
    SendInfoView { seq_num: c.snd_nxt, ack_num: c.rcv_nxt, flags: TcpFlags::Ack, payload: Seq::empty() }
}

/// A bare RST with SEG.SEQ=SEG.ACK of the offending segment (and a zero, meaningless SEG.ACK).
pub open spec fn rst(f: TcpFields) -> SendInfoView {
    SendInfoView { seq_num: f.ack_num, ack_num: 0, flags: TcpFlags::Rst, payload: Seq::empty() }
}

/// The view of an optional reply.
pub open spec fn opt_view(o: Option<SendInfo>) -> Option<SendInfoView> {
    match o {
        None => None,
        Some(i) => Some(i@),
    }
}

/// `c` after taking in-order `bytes` from the peer: RCV.NXT moves past them and the application's
/// reply to them is queued to be sent.
pub open spec fn receive_bytes(c: ConnView, bytes: Seq<u8>) -> ConnView {
    ConnView {
        rcv_nxt: seq_add(c.rcv_nxt, bytes.len() as int),
        send_buffer: c.send_buffer + app_reply(c.app, bytes),
        ..c
    }
}

/// `c` after delivering the buffered segments now contiguous with RCV.NXT (see `drain_result`):
/// the application's reply to their bytes is queued to be sent and RCV.NXT moves past them.
pub open spec fn deliver_reassembled(c: ConnView) -> ConnView {
    let (left, out, next) = drain_result(c.segments, c.rcv_nxt);
    ConnView { rcv_nxt: next, segments: left, send_buffer: c.send_buffer + app_reply(c.app, out), ..c }
}

/// The bytes that `deliver_reassembled` queues.
pub open spec fn reassembled_bytes(c: ConnView) -> Seq<u8> {
    drain_result(c.segments, c.rcv_nxt).1
}

/// Whether the peer's recorded FIN has been reached by RCV.NXT.
pub open spec fn fin_reached(c: ConnView) -> bool {
    match c.fin {
        None => false,
        Some(f) => seq_precedes_or_eq(f, c.rcv_nxt),
    }
}

/// `c` with the FIN byte of the peer consumed.
pub open spec fn consume_fin(c: ConnView) -> ConnView {
    ConnView { rcv_nxt: seq_add(c.rcv_nxt, 1), ..c }
}

/// The buffered segments after buffering `bytes` at `seq`: a segment already starting at `seq`
/// is replaced only by longer bytes; otherwise the new segment goes last.
pub open spec fn insert_segment(segs: Seq<SegmentView>, seq: u32, bytes: Seq<u8>) -> Seq<SegmentView> {
    if exists|k: int| 0 <= k < segs.len() && #[trigger] segs[k].0 == seq {
        let k = choose|k: int| 0 <= k < segs.len() && #[trigger] segs[k].0 == seq;
        if bytes.len() > segs[k].1.len() {
            segs.update(k, (seq, bytes))
        } else {
            segs
        }
    } else {
        segs.push((seq, bytes))
    }
}

/// `c` with the out-of-order payload of `f` (if any) buffered for reassembly.
pub open spec fn buffer_out_of_order(c: ConnView, f: TcpFields) -> ConnView {
    if f.payload.len() > 0 {
        ConnView { segments: insert_segment(c.segments, f.seq_num, f.payload), ..c }
    } else {
        c
    }
}

/// `c` with the position of the peer's FIN recorded at `seq`, unless one is recorded already.
pub open spec fn record_fin(c: ConnView, seq: u32) -> ConnView {
    match c.fin {
        None => ConnView { fin: Some(seq), ..c },
        Some(_) => c,
    }
}

/// Sends `bytes` as a data segment at `now`: SEG.SEQ=SND.NXT, SEG.ACK=RCV.NXT; SND.NXT advances
/// past the bytes and the segment becomes pending.
pub open spec fn data_payload(c: ConnView, bytes: Seq<u8>, now: u64) -> (SendInfoView, ConnView) {
    let info = SendInfoView {
        seq_num: c.snd_nxt,
        ack_num: c.rcv_nxt,
        flags: TcpFlags::Ack,
        payload: bytes,
    };
    (
        info,
        ConnView {
            snd_nxt: seq_add(c.snd_nxt, bytes.len() as int),
            pending: c.pending.push(PendingView { info, last_sent: now, retries: 0 }),
            ..c
        },
    )
}

/// Sends as much of the send buffer as the window allows as a data segment, or a pure ACK if
/// nothing can be sent.
pub open spec fn data_or_ack(ws: WindowState, c: ConnView, now: u64) -> Result<(SendInfoView, ConnView), Failure> {
    match drain_transmittable(ws, c) {
        Err(e) => Err((e, c)),
        Ok((bytes, c1)) => if bytes.len() > 0 {
            Ok(data_payload(c1, bytes, now))
        } else {
            Ok((pure_ack(c1), c1))
        },
    }
}

/// After the peer's FIN: drains as much of the send buffer as the window allows. If that empties
/// the buffer, our own FIN is sent (carrying any final chunk of data) and the connection moves to
/// LAST-ACK; otherwise the chunk goes out as plain data (or a pure ACK) and the connection stays
/// in CLOSE-WAIT.
pub open spec fn close_wait_or_last_ack(c: ConnView, ws: WindowState, now: u64) -> Result<(SendInfoView, ConnView), Failure> {
    match drain_transmittable(ws, c) {
        Err(e) => Err((e, c)),
        Ok((bytes, c1)) => if c1.send_buffer.len() == 0 {
            let info = SendInfoView {
                seq_num: c1.snd_nxt,
                ack_num: c1.rcv_nxt,
                flags: TcpFlags::FinAck,
                payload: bytes,
            };
            Ok(
                (
                    info,
                    ConnView {
                        tcp_state: TcpState::LastAck(ws),
                        snd_nxt: seq_add(c1.snd_nxt, bytes.len() + 1int),
                        pending: c1.pending.push(PendingView { info, last_sent: now, retries: 0 }),
                        ..c1
                    },
                ),
            )
        } else {
            let c2 = ConnView { tcp_state: TcpState::CloseWait(ws), ..c1 };
            if bytes.len() > 0 {
                Ok(data_payload(c2, bytes, now))
            } else {
                Ok((pure_ack(c2), c2))
            }
        },
    }
}

/// A FIN arriving in order in `f`: RCV.NXT advances past any trailing payload (whose answer is queued
/// to be sent) and the FIN itself, the acknowledgment is processed, and the connection proceeds
/// as in `close_wait_or_last_ack`.
pub open spec fn close_on_in_order_fin(f: TcpFields, c: ConnView, ws: WindowState, now: u64) -> Result<(SendInfoView, ConnView), Failure> {
    let c1 = consume_fin(receive_bytes(c, f.payload));
    let (ws2, c2) = ack_update(ws, c1, f);
    close_wait_or_last_ack(c2, ws2, now)
}

/// A failure while deciding: the error, and the connection as the step that failed left it.
pub type Failure = (StackError, ConnView);

/// What a handler decides: the reply (if any), the updated connection, and whether to remove it;
/// or the failure, with the connection as it was left.
pub type Decision = Result<(Option<SendInfoView>, ConnView, bool), Failure>;

/// Fallback cases common to all known connections (RFC 9293, Section 3.10.7.4): RST segments
/// are checked against the window to resist blind resets (RFC 5961, Section 3); other segments
/// outside the window, and stray SYNs on synchronized connections, get a challenge ACK; anything
/// else gets a RST.
pub open spec fn common_fallback(f: TcpFields, c: ConnView) -> Decision {
    let check = seq_check(f, c);
    let is_rst = f.flags == TcpFlags::Rst || f.flags == TcpFlags::RstAck;
    let is_syn = f.flags == TcpFlags::Syn || f.flags == TcpFlags::SynAck;
    if is_rst {
        match check {
            SeqCheck::Unacceptable => Ok((None, c, false)),
            SeqCheck::InOrder => Ok((None, c, true)),
            SeqCheck::OutOfOrder => Ok((Some(pure_ack(c)), c, false)),
        }
    } else if check == SeqCheck::Unacceptable {
        Ok((Some(pure_ack(c)), c, false))
    } else if is_syn && c.tcp_state != TcpState::SynReceived {
        Ok((Some(pure_ack(c)), c, false))
    } else {
        Ok((Some(rst(f)), c, false))
    }
}

/// The window and connection right after the handshake-completing acknowledgment `f`: ESTABLISHED
/// with the segment's window, SND.UNA=SEG.ACK, and nothing pending.
pub open spec fn complete_handshake(f: TcpFields, c: ConnView) -> (WindowState, ConnView) {
    let ws = WindowState {
        snd_wnd: f.window,
        snd_wl1: SeqPoint { value: f.seq_num },
        snd_wl2: SeqPoint { value: f.ack_num },
    };
    (
        ws,
        ConnView {
            tcp_state: TcpState::Established(ws),
            snd_una: f.ack_num,
            pending: Seq::empty(),
            ..c
        },
    )
}

/// After in-order data in ESTABLISHED (or completing the handshake): reassembled data is
/// delivered; if the peer's FIN has now been reached, the connection closes as in
/// `close_wait_or_last_ack`; otherwise data (or a pure ACK) is sent if `reply_needed` or anything
/// was reassembled, and nothing is sent otherwise.
pub open spec fn after_in_order_data(c: ConnView, ws: WindowState, reply_needed: bool, now: u64) -> Result<(Option<SendInfoView>, ConnView), Failure> {
    let anything = reply_needed || reassembled_bytes(c).len() > 0;
    let c1 = deliver_reassembled(c);
    if fin_reached(c1) {
        match close_wait_or_last_ack(consume_fin(c1), ws, now) {
            Err(e) => Err(e),
            Ok((info, c2)) => Ok((Some(info), c2)),
        }
    } else if anything {
        match data_or_ack(ws, c1, now) {
            Err(e) => Err(e),
            Ok((info, c2)) => Ok((Some(info), c2)),
        }
    } else {
        Ok((None, c1))
    }
}

/// Lifts a reply-and-connection result into a decision that keeps the connection.
pub open spec fn keep(r: Result<(Option<SendInfoView>, ConnView), Failure>) -> Decision {
    match r {
        Err(e) => Err(e),
        Ok((reply, c)) => Ok((reply, c, false)),
    }
}

/// Lifts a definite reply into a decision that keeps the connection.
pub open spec fn keep_some(r: Result<(SendInfoView, ConnView), Failure>) -> Decision {
    match r {
        Err(e) => Err(e),
        Ok((info, c)) => Ok((Some(info), c, false)),
    }
}

/// The decision for a segment on a SYN-RECEIVED connection.
pub open spec fn handle_syn_rcv(f: TcpFields, c: ConnView, now: u64) -> Decision {
    let acceptable_ack = seq_precedes(c.snd_una, f.ack_num) && seq_precedes_or_eq(
        f.ack_num,
        c.snd_nxt,
    );
    let check = seq_check(f, c);
    if f.flags == TcpFlags::Syn {
        // Duplicate SYN: resend the same SYN-ACK with the stored ISN
        let info = SendInfoView {
            seq_num: c.snd_una,
            ack_num: seq_add(f.seq_num, 1),
            flags: TcpFlags::SynAck,
            payload: Seq::empty(),
        };
        Ok(
            (
                Some(info),
                ConnView {
                    pending: c.pending.push(PendingView { info, last_sent: now, retries: 0 }),
                    ..c
                },
                false,
            ),
        )
    } else if f.flags == TcpFlags::Ack && check == SeqCheck::InOrder && acceptable_ack {
        let (ws, c1) = complete_handshake(f, c);
        keep(after_in_order_data(receive_bytes(c1, f.payload), ws, f.payload.len() > 0, now))
    } else if f.flags == TcpFlags::FinAck && check == SeqCheck::InOrder && acceptable_ack {
        let (ws, c1) = complete_handshake(f, c);
        keep_some(close_on_in_order_fin(f, c1, ws, now))
    } else if (f.flags == TcpFlags::Ack || f.flags == TcpFlags::FinAck) && check
        == SeqCheck::OutOfOrder && acceptable_ack {
        let (ws, c1) = complete_handshake(f, c);
        let c2 = buffer_out_of_order(c1, f);
        let c3 = if f.flags == TcpFlags::FinAck {
            record_fin(c2, seq_add(f.seq_num, f.payload.len() as int))
        } else {
            c2
        };
        Ok((Some(pure_ack(c3)), c3, false))
    } else {
        common_fallback(f, c)
    }
}

/// The decision for a segment on an ESTABLISHED connection with window `ws`.
pub open spec fn handle_established(f: TcpFields, c: ConnView, ws: WindowState, now: u64) -> Decision {
    let check = seq_check(f, c);
    let in_window = check == SeqCheck::InOrder || check == SeqCheck::OutOfOrder;
    if f.flags == TcpFlags::Ack && seq_precedes(c.snd_nxt, f.ack_num) {
        // Acknowledges data not yet sent: current-state ACK
        Ok((Some(pure_ack(c)), c, false))
    } else if f.flags == TcpFlags::Ack && f.payload.len() == 0 && in_window {
        let (ws2, c1) = ack_update(ws, c, f);
        let c2 = ConnView { tcp_state: TcpState::Established(ws2), ..c1 };
        match drain_transmittable(ws2, c2) {
            Err(e) => Err((e, c2)),
            Ok((bytes, c3)) => if bytes.len() > 0 {
                let (info, c4) = data_payload(c3, bytes, now);
                Ok((Some(info), c4, false))
            } else {
                Ok((None, c3, false))
            },
        }
    } else if f.flags == TcpFlags::Ack && f.payload.len() > 0 && check == SeqCheck::InOrder {
        let (ws2, c1) = ack_update(ws, c, f);
        let c2 = receive_bytes(ConnView { tcp_state: TcpState::Established(ws2), ..c1 }, f.payload);
        keep(after_in_order_data(c2, ws2, true, now))
    } else if f.flags == TcpFlags::Ack && f.payload.len() > 0 && check == SeqCheck::OutOfOrder {
        let (ws2, c1) = ack_update(ws, c, f);
        let c2 = buffer_out_of_order(ConnView { tcp_state: TcpState::Established(ws2), ..c1 }, f);
        Ok((Some(pure_ack(c2)), c2, false))
    } else if f.flags == TcpFlags::FinAck && check == SeqCheck::InOrder {
        keep_some(close_on_in_order_fin(f, c, ws, now))
    } else if f.flags == TcpFlags::FinAck && check == SeqCheck::OutOfOrder {
        let (ws2, c1) = ack_update(ws, c, f);
        let c2 = buffer_out_of_order(ConnView { tcp_state: TcpState::Established(ws2), ..c1 }, f);
        let c3 = record_fin(c2, seq_add(f.seq_num, f.payload.len() as int));
        Ok((Some(pure_ack(c3)), c3, false))
    } else {
        common_fallback(f, c)
    }
}

/// The decision for a segment on a FIN-WAIT-1 connection with window `ws`: data is acknowledged
/// but not answered (our send side is closed), an acknowledgment of our FIN moves to FIN-WAIT-2,
/// and the peer's FIN either completes the close (if it also acknowledges ours) or moves to
/// CLOSING.
pub open spec fn handle_fin_wait_1(f: TcpFields, c: ConnView, ws: WindowState) -> Decision {
    let check = seq_check(f, c);
    let in_window = check == SeqCheck::InOrder || check == SeqCheck::OutOfOrder;
    let our_fin_acked = f.ack_num == c.snd_nxt;
    if f.flags == TcpFlags::Ack && f.payload.len() > 0 && check == SeqCheck::InOrder {
        let c1 = ConnView { rcv_nxt: seq_add(c.rcv_nxt, f.payload.len() as int), ..c };
        let (ws2, c2) = ack_update(ws, c1, f);
        Ok((Some(pure_ack(c1)), ConnView { tcp_state: TcpState::FinWait1(ws2), ..c2 }, false))
    } else if f.flags == TcpFlags::Ack && f.payload.len() == 0 && in_window {
        let (ws2, c1) = ack_update(ws, c, f);
        let state = if our_fin_acked {
            TcpState::FinWait2(ws2)
        } else {
            TcpState::FinWait1(ws2)
        };
        Ok((None, ConnView { tcp_state: state, ..c1 }, false))
    } else if f.flags == TcpFlags::FinAck && check == SeqCheck::InOrder {
        let c1 = ConnView { rcv_nxt: seq_add(seq_add(c.rcv_nxt, f.payload.len() as int), 1), ..c };
        if our_fin_acked {
            Ok((Some(pure_ack(c1)), c1, true))
        } else {
            let (ws2, c2) = ack_update(ws, c1, f);
            Ok((Some(pure_ack(c1)), ConnView { tcp_state: TcpState::Closing(ws2), ..c2 }, false))
        }
    } else {
        common_fallback(f, c)
    }
}

/// The decision for a segment on a FIN-WAIT-2 connection with window `ws`: data is acknowledged
/// but not answered, and the peer's FIN completes the close.
pub open spec fn handle_fin_wait_2(f: TcpFields, c: ConnView, ws: WindowState) -> Decision {
    let check = seq_check(f, c);
    let in_window = check == SeqCheck::InOrder || check == SeqCheck::OutOfOrder;
    if f.flags == TcpFlags::Ack && f.payload.len() > 0 && check == SeqCheck::InOrder {
        let c1 = ConnView { rcv_nxt: seq_add(c.rcv_nxt, f.payload.len() as int), ..c };
        let (ws2, c2) = ack_update(ws, c1, f);
        Ok((Some(pure_ack(c1)), ConnView { tcp_state: TcpState::FinWait2(ws2), ..c2 }, false))
    } else if f.flags == TcpFlags::Ack && f.payload.len() == 0 && in_window {
        let (ws2, c1) = ack_update(ws, c, f);
        Ok((None, ConnView { tcp_state: TcpState::FinWait2(ws2), ..c1 }, false))
    } else if f.flags == TcpFlags::FinAck && check == SeqCheck::InOrder {
        let c1 = ConnView { rcv_nxt: seq_add(seq_add(c.rcv_nxt, f.payload.len() as int), 1), ..c };
        Ok((Some(pure_ack(c1)), c1, true))
    } else {
        common_fallback(f, c)
    }
}

/// The decision for a segment on a CLOSE-WAIT connection with window `ws`: an acknowledgment lets
/// more of the send buffer drain and possibly our FIN go out.
pub open spec fn handle_close_wait(f: TcpFields, c: ConnView, ws: WindowState, now: u64) -> Decision {
    let check = seq_check(f, c);
    let in_window = check == SeqCheck::InOrder || check == SeqCheck::OutOfOrder;
    if f.flags == TcpFlags::Ack && f.payload.len() == 0 && in_window {
        let (ws2, c1) = ack_update(ws, c, f);
        keep_some(close_wait_or_last_ack(c1, ws2, now))
    } else {
        common_fallback(f, c)
    }
}

/// The decision for a segment on a CLOSING or LAST-ACK connection with window `ws`: an
/// acknowledgment of our FIN removes the connection; a partial one only updates the send side.
pub open spec fn handle_awaiting_fin_ack(f: TcpFields, c: ConnView, ws: WindowState, closing: bool) -> Decision {
    let check = seq_check(f, c);
    let in_window = check == SeqCheck::InOrder || check == SeqCheck::OutOfOrder;
    if f.flags == TcpFlags::Ack && f.payload.len() == 0 && in_window {
        if f.ack_num == c.snd_nxt {
            Ok((None, c, true))
        } else {
            let (ws2, c1) = ack_update(ws, c, f);
            let state = if closing {
                TcpState::Closing(ws2)
            } else {
                TcpState::LastAck(ws2)
            };
            Ok((None, ConnView { tcp_state: state, ..c1 }, false))
        }
    } else {
        common_fallback(f, c)
    }
}

/// The decision for a segment `f` on a known connection `c`, by its state.
pub open spec fn handle_known(f: TcpFields, c: ConnView, now: u64) -> Decision {
    match c.tcp_state {
        TcpState::SynReceived => handle_syn_rcv(f, c, now),
        TcpState::Established(ws) => handle_established(f, c, ws, now),
        TcpState::FinWait1(ws) => handle_fin_wait_1(f, c, ws),
        TcpState::FinWait2(ws) => handle_fin_wait_2(f, c, ws),
        TcpState::CloseWait(ws) => handle_close_wait(f, c, ws, now),
        TcpState::Closing(ws) => handle_awaiting_fin_ack(f, c, ws, true),
        TcpState::LastAck(ws) => handle_awaiting_fin_ack(f, c, ws, false),
    }
}

/// The reply to a segment for which no connection exists: a SYN gets a SYN-ACK with initial
/// sequence number `isn` (and a new connection), a RST is silently dropped (never RST a RST), and
/// anything else gets a RST (RFC 9293, Sections 3.10.7.1 and 3.10.7.2).
pub open spec fn unknown_conn_reply(f: TcpFields, isn: u32) -> Option<SendInfoView> {
    match f.flags {
        TcpFlags::Syn => Some(
            SendInfoView {
                seq_num: isn,
                ack_num: seq_add(f.seq_num, 1),
                flags: TcpFlags::SynAck,
                payload: Seq::empty(),
            },
        ),
        TcpFlags::Rst | TcpFlags::RstAck => None,
        _ => Some(rst(f)),
    }
}

/// Turns an exec decision into its view.
pub open spec fn decision_view(
    r: Result<(Option<SendInfo>, bool), StackError>,
    conn: ConnView,
) -> Decision {
    match r {
        Err(e) => Err((e, conn)),
        Ok((reply, remove)) => Ok((opt_view(reply), conn, remove)),
    }
}

/// Whether an exec decision, with the connection `conn` it left, is the specified one.
pub open spec fn decided(
    r: Result<(Option<SendInfo>, bool), StackError>,
    conn: ConnView,
    spec: Decision,
) -> bool {
    decision_view(r, conn) == spec
}

impl SendInfo {
    /// A pure ACK reflecting the current state of `conn`.
    pub fn pure_ack(conn: &ConnState) -> (r: SendInfo)
        ensures
            r@ == pure_ack(conn@),
    {
        SendInfo { seq_num: conn.snd_nxt, ack_num: conn.rcv_nxt, flags: TcpFlags::Ack, payload: None }
    }

    /// A RST with SEG.SEQ set to the acknowledgment number of `seg`.
    pub fn rst(seg: &TcpSegment) -> (r: SendInfo)
        ensures
            r@ == rst(tcp_fields(*seg)),
    {
        SendInfo { seq_num: seg.ack_num, ack_num: SeqPoint { value: 0 }, flags: TcpFlags::Rst, payload: None }
    }
}

/// Checks SEG.SEQ of `seg` against RCV.NXT and RCV.WND of `conn`.
pub fn check_seq(seg: &TcpSegment, conn: &ConnState) -> (r: SeqCheck)
    ensures
        r == seq_check(tcp_fields(*seg), conn@),
{
    if seg.seq_num.value == conn.rcv_nxt.value {
        SeqCheck::InOrder
    } else if seg.seq_num.in_window(conn.rcv_nxt, SeqOffset { value: RCV_WND }) {
        SeqCheck::OutOfOrder
    } else {
        SeqCheck::Unacceptable
    }
}

/// Queues the application's reply to the in-order `payload` (if any), moving RCV.NXT past it.
fn receive_payload(conn: &mut ConnState, payload: &Option<TcpPayload>)
    requires
        old(conn).wf(),
    ensures
        final(conn).wf(),
        final(conn)@ == receive_bytes(old(conn)@, payload_bytes(*payload)),
{
    match payload {
        None => {
            assert(app_reply(conn.app, Seq::<u8>::empty()) =~= Seq::<u8>::empty());
            assert(conn.send_buffer@ + Seq::<u8>::empty() =~= conn.send_buffer@);
        },
        Some(p) => {
            conn.rcv_nxt = conn.rcv_nxt.add(SeqOffset { value: p.len() as u32 });
            let mut app = conn.app;
            app.handle_tcp(p.as_bytes(), &mut conn.send_buffer);
        },
    }
}

/// Delivers buffered segments now contiguous with RCV.NXT, returning whether any bytes were.
fn deliver(conn: &mut ConnState) -> (r: bool)
    requires
        old(conn).wf(),
    ensures
        final(conn).wf(),
        final(conn)@ == deliver_reassembled(old(conn)@),
        r == (reassembled_bytes(old(conn)@).len() > 0),
{
    let mut reassembled: Vec<u8> = Vec::new();
    let next = conn.reassembly.drain_contiguous(conn.rcv_nxt, &mut reassembled);
    conn.rcv_nxt = next;
    let any = reassembled.len() > 0;
    let mut app = conn.app;
    app.handle_tcp(reassembled.as_slice(), &mut conn.send_buffer);
    any
}

/// Sends `to_send` as a data segment at `now`, advancing SND.NXT and recording it as pending.
fn data_payload_exec(conn: &mut ConnState, to_send: TcpPayload, now: u64) -> (r: SendInfo)
    ensures
        (r@, final(conn)@) == data_payload(old(conn)@, to_send@, now),
        final(conn).reassembly == old(conn).reassembly,
{
    let len = SeqOffset { value: to_send.len() as u32 };
    let info = SendInfo { seq_num: conn.snd_nxt, ack_num: conn.rcv_nxt, flags: TcpFlags::Ack, payload: Some(to_send) };
    conn.snd_nxt = conn.snd_nxt.add(len);
    let ghost before = conn.pending@.map_values(|p: PendingSegment| p@);
    conn.pending.push(PendingSegment::new(info.clone(), now));
    assert(conn.pending@.map_values(|p: PendingSegment| p@) =~= before.push(
        PendingView { info: info@, last_sent: now, retries: 0 },
    ));
    info
}

/// Sends as much of the send buffer as the window allows, or a pure ACK (see `data_or_ack`).
fn data_or_ack_exec(conn: &mut ConnState, ws: WindowState, now: u64) -> (r: Result<SendInfo, StackError>)
    requires
        old(conn).wf(),
    ensures
        final(conn).wf(),
        (match r {
            Err(e) => data_or_ack(ws, old(conn)@, now) == Err::<(SendInfoView, ConnView), _>((e, final(conn)@)),
            Ok(info) => data_or_ack(ws, old(conn)@, now) == Ok::<_, Failure>((info@, final(conn)@)),
        }),
{
    match conn.drain_transmittable(ws) {
        Err(e) => Err(e),
        Ok(Some(to_send)) => {
            let _nonempty = to_send.len();
            Ok(data_payload_exec(conn, to_send, now))
        },
        Ok(None) => Ok(SendInfo::pure_ack(conn)),
    }
}

/// Proceeds after the peer's FIN (see `close_wait_or_last_ack`).
fn close_wait_or_last_ack_exec(conn: &mut ConnState, ws: WindowState, now: u64) -> (r: Result<SendInfo, StackError>)
    requires
        old(conn).wf(),
    ensures
        final(conn).wf(),
        (match r {
            Err(e) => close_wait_or_last_ack(old(conn)@, ws, now) == Err::<(SendInfoView, ConnView), _>((e, final(conn)@)),
            Ok(info) => close_wait_or_last_ack(old(conn)@, ws, now) == Ok::<_, Failure>(
                (info@, final(conn)@),
            ),
        }),
{
    let to_send = match conn.drain_transmittable(ws) {
        Err(e) => return Err(e),
        Ok(p) => p,
    };
    if conn.send_buffer.len() == 0 {
        let send_len = len_or_default(&to_send);
        conn.tcp_state = TcpState::LastAck(ws);
        let info = SendInfo { seq_num: conn.snd_nxt, ack_num: conn.rcv_nxt, flags: TcpFlags::FinAck, payload: to_send };
        conn.snd_nxt = conn.snd_nxt.add(SeqOffset { value: send_len as u32 + 1 });
        let ghost before = conn.pending@.map_values(|p: PendingSegment| p@);
        conn.pending.push(PendingSegment::new(info.clone(), now));
        assert(conn.pending@.map_values(|p: PendingSegment| p@) =~= before.push(
            PendingView { info: info@, last_sent: now, retries: 0 },
        ));
        Ok(info)
    } else {
        conn.tcp_state = TcpState::CloseWait(ws);
        match to_send {
            Some(payload) => {
                let _nonempty = payload.len();
                Ok(data_payload_exec(conn, payload, now))
            },
            None => Ok(SendInfo::pure_ack(conn)),
        }
    }
}

/// Handles a FIN arriving in order (see `close_on_in_order_fin`).
fn close_on_in_order_fin_exec(seg: &TcpSegment, conn: &mut ConnState, ws: WindowState, now: u64) -> (r: Result<SendInfo, StackError>)
    requires
        old(conn).wf(),
    ensures
        final(conn).wf(),
        (match r {
            Err(e) => close_on_in_order_fin(tcp_fields(*seg), old(conn)@, ws, now) == Err::<(SendInfoView, ConnView), _>((e, final(conn)@)),
            Ok(info) => close_on_in_order_fin(tcp_fields(*seg), old(conn)@, ws, now) == Ok::<_, Failure>(
                (info@, final(conn)@),
            ),
        }),
{
    receive_payload(conn, &seg.payload);
    conn.rcv_nxt = conn.rcv_nxt.add(SeqOffset { value: 1 });
    let ws2 = conn.incoming_ack_update(ws, seg);
    close_wait_or_last_ack_exec(conn, ws2, now)
}

/// Continues after in-order data (see `after_in_order_data`).
fn after_in_order_data_exec(conn: &mut ConnState, ws: WindowState, reply_needed: bool, now: u64) -> (r: Result<Option<SendInfo>, StackError>)
    requires
        old(conn).wf(),
    ensures
        final(conn).wf(),
        (match r {
            Err(e) => after_in_order_data(old(conn)@, ws, reply_needed, now) == Err::<(Option<SendInfoView>, ConnView), _>((e, final(conn)@)),
            Ok(o) => after_in_order_data(old(conn)@, ws, reply_needed, now) == Ok::<_, Failure>(
                (opt_view(o), final(conn)@),
            ),
        }),
{
    let any = deliver(conn);
    if conn.reassembly.fin_reached(conn.rcv_nxt) {
        conn.rcv_nxt = conn.rcv_nxt.add(SeqOffset { value: 1 });
        match close_wait_or_last_ack_exec(conn, ws, now) {
            Err(e) => Err(e),
            Ok(info) => Ok(Some(info)),
        }
    } else if reply_needed || any {
        match data_or_ack_exec(conn, ws, now) {
            Err(e) => Err(e),
            Ok(info) => Ok(Some(info)),
        }
    } else {
        Ok(None)
    }
}

/// Buffers the out-of-order payload of `seg` (if any) for reassembly.
fn buffer_payload(conn: &mut ConnState, seg: &TcpSegment)
    requires
        old(conn).wf(),
    ensures
        final(conn).wf(),
        final(conn)@ == buffer_out_of_order(old(conn)@, tcp_fields(*seg)),
{
    match &seg.payload {
        None => {},
        Some(p) => {
            let _nonempty = p.len();
            conn.reassembly.insert(seg.seq_num, p.clone());
        },
    }
}

/// Completes the handshake with `seg` (see `complete_handshake`), returning the new window.
fn complete_handshake_exec(seg: &TcpSegment, conn: &mut ConnState) -> (r: WindowState)
    requires
        old(conn).wf(),
    ensures
        final(conn).wf(),
        (r, final(conn)@) == complete_handshake(tcp_fields(*seg), old(conn)@),
{
    let ws = WindowState { snd_wnd: seg.window, snd_wl1: seg.seq_num, snd_wl2: seg.ack_num };
    conn.tcp_state = TcpState::Established(ws);
    conn.snd_una = seg.ack_num;
    // Only the SYN-ACK just acknowledged could have been pending
    conn.pending = Vec::new();
    assert(conn.pending@.map_values(|p: PendingSegment| p@) =~= Seq::<PendingView>::empty());
    ws
}

/// Handles the fallback cases common to known connections (see `common_fallback`).
fn known_conn_common_fallback(seg: &TcpSegment, conn: &ConnState) -> (r: (Option<SendInfo>, bool))
    ensures
        common_fallback(tcp_fields(*seg), conn@) == Ok::<_, Failure>((opt_view(r.0), conn@, r.1)),
{
    let check = check_seq(seg, conn);
    match seg.flags {
        TcpFlags::Rst | TcpFlags::RstAck => match check {
            // Case 1: SEG.SEQ outside window -> silently drop segment
            SeqCheck::Unacceptable => (None, false),
            // Case 2: SEG.SEQ == RCV.NXT -> reset connection, no reply
            SeqCheck::InOrder => (None, true),
            // Case 3: SEG.SEQ in window but != RCV.NXT -> challenge ACK
            SeqCheck::OutOfOrder => (Some(SendInfo::pure_ack(conn)), false),
        },
        _ => {
            if check == SeqCheck::Unacceptable {
                (Some(SendInfo::pure_ack(conn)), false)
            } else if (seg.flags == TcpFlags::Syn || seg.flags == TcpFlags::SynAck) && conn.tcp_state
                != TcpState::SynReceived {
                // Stray SYN on a synchronized connection -> challenge ACK
                (Some(SendInfo::pure_ack(conn)), false)
            } else {
                // Refused at every previous point (rare) -> RST
                (Some(SendInfo::rst(seg)), false)
            }
        },
    }
}

/// Lifts a reply into a decision that keeps the connection.
fn keep_reply(r: Result<SendInfo, StackError>) -> (d: Result<(Option<SendInfo>, bool), StackError>)
    ensures
        (match r {
            Err(e) => d == Err::<(Option<SendInfo>, bool), _>(e),
            Ok(info) => d matches Ok((Some(i), false)) && i@ == info@,
        }),
{
    match r {
        Err(e) => Err(e),
        Ok(info) => Ok((Some(info), false)),
    }
}

/// Decides the reply to `seg` on a SYN-RECEIVED connection (see `handle_syn_rcv`).
fn handle_syn_rcv_exec(seg: &TcpSegment, conn: &mut ConnState, now: u64) -> (r: Result<(Option<SendInfo>, bool), StackError>)
    requires
        old(conn).wf(),
        old(conn).tcp_state == TcpState::SynReceived,
    ensures
        final(conn).wf(),
        decided(r, final(conn)@, handle_syn_rcv(tcp_fields(*seg), old(conn)@, now)),
{
    let acceptable_ack = conn.snd_una.precedes(seg.ack_num) && seg.ack_num.precedes_or_eq(conn.snd_nxt);
    let check = check_seq(seg, conn);
    if seg.flags == TcpFlags::Syn {
        // Duplicate SYN while awaiting the handshake ACK (the client's retransmission timer resent
        // the SYN) -> resend the same SYN-ACK using the already-stored ISN
        let info = SendInfo {
            seq_num: conn.snd_una,
            ack_num: seg.seq_num.add(SeqOffset { value: 1 }),
            flags: TcpFlags::SynAck,
            payload: None,
        };
        let ghost before = conn.pending@.map_values(|p: PendingSegment| p@);
        conn.pending.push(PendingSegment::new(info.clone(), now));
        assert(conn.pending@.map_values(|p: PendingSegment| p@) =~= before.push(
            PendingView { info: info@, last_sent: now, retries: 0 },
        ));
        Ok((Some(info), false))
    } else if seg.flags == TcpFlags::Ack && check == SeqCheck::InOrder && acceptable_ack {
        // Handshake-completing ACK in order -> ESTABLISHED, echoing any payload and any buffered
        // data now contiguous with it
        let ws = complete_handshake_exec(seg, conn);
        receive_payload(conn, &seg.payload);
        let reply_needed = seg.payload.is_some();
        proof {
            if reply_needed {
                let p = seg.payload.unwrap();
                assert(payload_bytes(seg.payload) == p@);
            }
        }
        let needed = match &seg.payload {
            None => false,
            Some(p) => p.len() > 0,
        };
        match after_in_order_data_exec(conn, ws, needed, now) {
            Err(e) => Err(e),
            Ok(o) => Ok((o, false)),
        }
    } else if seg.flags == TcpFlags::FinAck && check == SeqCheck::InOrder && acceptable_ack {
        // Handshake-completing FIN-ACK in order -> ESTABLISHED, then immediately start closing
        let ws = complete_handshake_exec(seg, conn);
        keep_reply(close_on_in_order_fin_exec(seg, conn, ws, now))
    } else if (seg.flags == TcpFlags::Ack || seg.flags == TcpFlags::FinAck) && check == SeqCheck::OutOfOrder
        && acceptable_ack {
        // Handshake-completing segment out of order but in window -> complete the handshake and
        // buffer any payload and FIN position for later reassembly
        complete_handshake_exec(seg, conn);
        buffer_payload(conn, seg);
        if seg.flags == TcpFlags::FinAck {
            let len = len_or_default(&seg.payload);
            conn.reassembly.mark_fin(seg.seq_num.add(SeqOffset { value: len as u32 }));
        }
        Ok((Some(SendInfo::pure_ack(conn)), false))
    } else {
        let (reply, remove) = known_conn_common_fallback(seg, conn);
        Ok((reply, remove))
    }
}

/// Decides the reply to `seg` on an ESTABLISHED connection with window `ws` (see
/// `handle_established`).
fn handle_established_exec(seg: &TcpSegment, conn: &mut ConnState, ws: WindowState, now: u64) -> (r: Result<(Option<SendInfo>, bool), StackError>)
    requires
        old(conn).wf(),
    ensures
        final(conn).wf(),
        decided(r, final(conn)@, handle_established(tcp_fields(*seg), old(conn)@, ws, now)),
{
    let check = check_seq(seg, conn);
    let in_window = check == SeqCheck::InOrder || check == SeqCheck::OutOfOrder;
    let plen = len_or_default(&seg.payload);
    if seg.flags == TcpFlags::Ack && conn.snd_nxt.precedes(seg.ack_num) {
        // ACK of data not yet sent -> drop the segment, reply with the current state
        Ok((Some(SendInfo::pure_ack(conn)), false))
    } else if seg.flags == TcpFlags::Ack && plen == 0 && in_window {
        // Pure ACK -> advance SND.UNA, then send whatever the window now allows
        let ws2 = conn.incoming_ack_update(ws, seg);
        conn.tcp_state = TcpState::Established(ws2);
        match conn.drain_transmittable(ws2) {
            Err(e) => Err(e),
            Ok(None) => Ok((None, false)),
            Ok(Some(to_send)) => {
                let _nonempty = to_send.len();
                Ok((Some(data_payload_exec(conn, to_send, now)), false))
            },
        }
    } else if seg.flags == TcpFlags::Ack && plen > 0 && check == SeqCheck::InOrder {
        // In-order data -> ACK it, echoing it and any buffered data now contiguous
        let ws2 = conn.incoming_ack_update(ws, seg);
        conn.tcp_state = TcpState::Established(ws2);
        receive_payload(conn, &seg.payload);
        match after_in_order_data_exec(conn, ws2, true, now) {
            Err(e) => Err(e),
            Ok(o) => Ok((o, false)),
        }
    } else if seg.flags == TcpFlags::Ack && plen > 0 && check == SeqCheck::OutOfOrder {
        // Out-of-order data in the window -> buffer it, duplicate ACK
        let ws2 = conn.incoming_ack_update(ws, seg);
        conn.tcp_state = TcpState::Established(ws2);
        buffer_payload(conn, seg);
        Ok((Some(SendInfo::pure_ack(conn)), false))
    } else if seg.flags == TcpFlags::FinAck && check == SeqCheck::InOrder {
        // FIN-ACK in order -> answer trailing data as the window allows and start closing
        keep_reply(close_on_in_order_fin_exec(seg, conn, ws, now))
    } else if seg.flags == TcpFlags::FinAck && check == SeqCheck::OutOfOrder {
        // FIN-ACK out of order -> buffer trailing data and remember the FIN's position
        let ws2 = conn.incoming_ack_update(ws, seg);
        conn.tcp_state = TcpState::Established(ws2);
        buffer_payload(conn, seg);
        conn.reassembly.mark_fin(seg.seq_num.add(SeqOffset { value: plen as u32 }));
        Ok((Some(SendInfo::pure_ack(conn)), false))
    } else {
        let (reply, remove) = known_conn_common_fallback(seg, conn);
        Ok((reply, remove))
    }
}

/// Decides the reply to `seg` on a FIN-WAIT-1 connection with window `ws` (see
/// `handle_fin_wait_1`).
fn handle_fin_wait_1_exec(seg: &TcpSegment, conn: &mut ConnState, ws: WindowState) -> (r: Result<(Option<SendInfo>, bool), StackError>)
    requires
        old(conn).wf(),
    ensures
        final(conn).wf(),
        decided(r, final(conn)@, handle_fin_wait_1(tcp_fields(*seg), old(conn)@, ws)),
{
    let check = check_seq(seg, conn);
    let in_window = check == SeqCheck::InOrder || check == SeqCheck::OutOfOrder;
    let our_fin_acked = seg.ack_num.value == conn.snd_nxt.value;
    let plen = len_or_default(&seg.payload);
    if seg.flags == TcpFlags::Ack && plen > 0 && check == SeqCheck::InOrder {
        // Data after our FIN (half closed) -> ACK without echoing
        conn.rcv_nxt = conn.rcv_nxt.add(SeqOffset { value: plen as u32 });
        let info = SendInfo::pure_ack(conn);
        let ws2 = conn.incoming_ack_update(ws, seg);
        conn.tcp_state = TcpState::FinWait1(ws2);
        Ok((Some(info), false))
    } else if seg.flags == TcpFlags::Ack && plen == 0 && in_window {
        // Our FIN acknowledged -> FIN-WAIT-2; partial ACK -> stay
        let ws2 = conn.incoming_ack_update(ws, seg);
        conn.tcp_state = if our_fin_acked {
            TcpState::FinWait2(ws2)
        } else {
            TcpState::FinWait1(ws2)
        };
        Ok((None, false))
    } else if seg.flags == TcpFlags::FinAck && check == SeqCheck::InOrder {
        // Peer's FIN (simultaneous close) -> ACK it; remove if it also acknowledges ours,
        // otherwise move to CLOSING
        conn.rcv_nxt = conn.rcv_nxt.add(SeqOffset { value: plen as u32 });
        conn.rcv_nxt = conn.rcv_nxt.add(SeqOffset { value: 1 });
        let info = SendInfo::pure_ack(conn);
        if our_fin_acked {
            Ok((Some(info), true))
        } else {
            let ws2 = conn.incoming_ack_update(ws, seg);
            conn.tcp_state = TcpState::Closing(ws2);
            Ok((Some(info), false))
        }
    } else {
        let (reply, remove) = known_conn_common_fallback(seg, conn);
        Ok((reply, remove))
    }
}

/// Decides the reply to `seg` on a FIN-WAIT-2 connection with window `ws` (see
/// `handle_fin_wait_2`).
fn handle_fin_wait_2_exec(seg: &TcpSegment, conn: &mut ConnState, ws: WindowState) -> (r: Result<(Option<SendInfo>, bool), StackError>)
    requires
        old(conn).wf(),
    ensures
        final(conn).wf(),
        decided(r, final(conn)@, handle_fin_wait_2(tcp_fields(*seg), old(conn)@, ws)),
{
    let check = check_seq(seg, conn);
    let in_window = check == SeqCheck::InOrder || check == SeqCheck::OutOfOrder;
    let plen = len_or_default(&seg.payload);
    if seg.flags == TcpFlags::Ack && plen > 0 && check == SeqCheck::InOrder {
        conn.rcv_nxt = conn.rcv_nxt.add(SeqOffset { value: plen as u32 });
        let info = SendInfo::pure_ack(conn);
        let ws2 = conn.incoming_ack_update(ws, seg);
        conn.tcp_state = TcpState::FinWait2(ws2);
        Ok((Some(info), false))
    } else if seg.flags == TcpFlags::Ack && plen == 0 && in_window {
        let ws2 = conn.incoming_ack_update(ws, seg);
        conn.tcp_state = TcpState::FinWait2(ws2);
        Ok((None, false))
    } else if seg.flags == TcpFlags::FinAck && check == SeqCheck::InOrder {
        // Peer's FIN -> ACK it and finish closing (no TIME-WAIT)
        conn.rcv_nxt = conn.rcv_nxt.add(SeqOffset { value: plen as u32 });
        conn.rcv_nxt = conn.rcv_nxt.add(SeqOffset { value: 1 });
        Ok((Some(SendInfo::pure_ack(conn)), true))
    } else {
        let (reply, remove) = known_conn_common_fallback(seg, conn);
        Ok((reply, remove))
    }
}

/// Decides the reply to `seg` on a CLOSE-WAIT connection with window `ws` (see
/// `handle_close_wait`).
fn handle_close_wait_exec(seg: &TcpSegment, conn: &mut ConnState, ws: WindowState, now: u64) -> (r: Result<(Option<SendInfo>, bool), StackError>)
    requires
        old(conn).wf(),
    ensures
        final(conn).wf(),
        decided(r, final(conn)@, handle_close_wait(tcp_fields(*seg), old(conn)@, ws, now)),
{
    let check = check_seq(seg, conn);
    let in_window = check == SeqCheck::InOrder || check == SeqCheck::OutOfOrder;
    let plen = len_or_default(&seg.payload);
    if seg.flags == TcpFlags::Ack && plen == 0 && in_window {
        let ws2 = conn.incoming_ack_update(ws, seg);
        keep_reply(close_wait_or_last_ack_exec(conn, ws2, now))
    } else {
        let (reply, remove) = known_conn_common_fallback(seg, conn);
        Ok((reply, remove))
    }
}

/// Decides the reply to `seg` on a CLOSING (`closing`) or LAST-ACK connection with window `ws`
/// (see `handle_awaiting_fin_ack`).
fn handle_awaiting_fin_ack_exec(seg: &TcpSegment, conn: &mut ConnState, ws: WindowState, closing: bool) -> (r: Result<(Option<SendInfo>, bool), StackError>)
    requires
        old(conn).wf(),
    ensures
        final(conn).wf(),
        decided(r, final(conn)@, handle_awaiting_fin_ack(tcp_fields(*seg), old(conn)@, ws, closing)),
{
    let check = check_seq(seg, conn);
    let in_window = check == SeqCheck::InOrder || check == SeqCheck::OutOfOrder;
    let plen = len_or_default(&seg.payload);
    if seg.flags == TcpFlags::Ack && plen == 0 && in_window {
        if seg.ack_num.value == conn.snd_nxt.value {
            // Our FIN acknowledged -> remove the connection, no reply
            Ok((None, true))
        } else {
            // Partial ACK -> update the send side and keep waiting
            let ws2 = conn.incoming_ack_update(ws, seg);
            conn.tcp_state = if closing {
                TcpState::Closing(ws2)
            } else {
                TcpState::LastAck(ws2)
            };
            Ok((None, false))
        }
    } else {
        let (reply, remove) = known_conn_common_fallback(seg, conn);
        Ok((reply, remove))
    }
}

/// Decides the reply to `seg` on the known connection `conn` (see `handle_known`), updating it.
pub fn handle_known_exec(seg: &TcpSegment, conn: &mut ConnState, now: u64) -> (r: Result<(Option<SendInfo>, bool), StackError>)
    requires
        old(conn).wf(),
    ensures
        final(conn).wf(),
        decided(r, final(conn)@, handle_known(tcp_fields(*seg), old(conn)@, now)),
{
    match conn.tcp_state {
        TcpState::SynReceived => handle_syn_rcv_exec(seg, conn, now),
        TcpState::Established(ws) => handle_established_exec(seg, conn, ws, now),
        TcpState::FinWait1(ws) => handle_fin_wait_1_exec(seg, conn, ws),
        TcpState::FinWait2(ws) => handle_fin_wait_2_exec(seg, conn, ws),
        TcpState::CloseWait(ws) => handle_close_wait_exec(seg, conn, ws, now),
        TcpState::Closing(ws) => handle_awaiting_fin_ack_exec(seg, conn, ws, true),
        TcpState::LastAck(ws) => handle_awaiting_fin_ack_exec(seg, conn, ws, false),
    }
}

/// Flow control on a pure ACK (RFC 9293, Section 3.10.7.4): in ESTABLISHED, an in-window pure
/// ACK that acknowledges nothing unsent updates SND.UNA and the send window, and then as much of
/// the queued reply as the new window leaves room for goes out at once as a data segment at
/// SND.NXT. No reply is sent only when nothing can be: the queue is empty or the data in flight
/// already fills the window. What is sent is the front of the queue, at most one segment's worth,
/// and it never carries the data in flight past the window; the rest stays queued, in order.
pub proof fn lemma_pure_ack_sends_what_the_window_allows(f: TcpFields, c: ConnView, ws: WindowState, now: u64)
    requires
        c.tcp_state == TcpState::Established(ws),
        seq_precedes_or_eq(c.snd_una, c.snd_nxt),
        f.flags == TcpFlags::Ack,
        f.payload.len() == 0,
        seq_check(f, c) != SeqCheck::Unacceptable,
        !seq_precedes(c.snd_nxt, f.ack_num),
    ensures
        ({
            let ws2 = ack_update(ws, c, f).0;
            let una = ack_update(ws, c, f).1.snd_una;
            let in_flight = seq_dist(c.snd_nxt, una);
            handle_established(f, c, ws, now) matches Ok((reply, c2, remove)) && !remove
                && c2.tcp_state == TcpState::Established(ws2) && c2.snd_una == una
                && c2.rcv_nxt == c.rcv_nxt && match reply {
                None => c2.send_buffer == c.send_buffer && c2.snd_nxt == c.snd_nxt && (
                c.send_buffer.len() == 0 || in_flight >= ws2.snd_wnd),
                Some(info) => {
                    &&& info.seq_num == c.snd_nxt
                    &&& info.ack_num == c.rcv_nxt
                    &&& info.flags == TcpFlags::Ack
                    &&& 0 < info.payload.len() <= MAX_PAYLOAD_LEN
                    &&& in_flight + info.payload.len() <= ws2.snd_wnd
                    &&& info.payload + c2.send_buffer == c.send_buffer
                    &&& c2.snd_nxt == seq_add(c.snd_nxt, info.payload.len() as int)
                },
            }
        }),
{
    let (ws2, c1) = ack_update(ws, c, f);
    let c2 = ConnView { tcp_state: TcpState::Established(ws2), ..c1 };
    assert(seq_precedes_or_eq(c2.snd_una, c2.snd_nxt));
    lemma_drain_respects_window(ws2, c2);
    let (bytes, c3) = drain_transmittable(ws2, c2)->Ok_0;
    assert(c.send_buffer.take(0) =~= Seq::<u8>::empty());
}

} // verus!
