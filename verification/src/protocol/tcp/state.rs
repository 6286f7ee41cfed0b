use super::flags::TcpFlags;
use super::payload::{payload_bytes, TcpPayload};
use super::reassembly::{SegmentView, TcpReassembly};
use super::seq_space::{
    half_space, seq_add, seq_dist, seq_modulus, seq_precedes, seq_precedes_or_eq, SeqPoint,
};
use super::TcpFields;
use crate::application::ServerApp;
use crate::error::StackError;
use vstd::prelude::*;

verus! {

/// The most payload bytes one segment carries: the Ethernet MTU less the IPv4 and TCP headers
/// (neither of which ever carries options here).
pub const MAX_PAYLOAD_LEN: usize = 1460;

/// The SND.WND, SND.WL1, and SND.WL2 values of a connection.
#[derive(Clone, Copy, Debug, PartialEq, Eq, Structural)]
pub struct WindowState {
    /// SND.WND or send window: "the sequence numbers that the remote (receiving) TCP endpoint is
    /// willing to receive" (RFC 9293, Section 4).
    pub snd_wnd: u16,
    /// SND.WL1: "segment sequence number used for last window update" (RFC 9293, Section 3.3.1).
    pub snd_wl1: SeqPoint,
    /// SND.WL2: "segment acknowledgment number used for last window update".
    pub snd_wl2: SeqPoint,
}

/// The states of a TCP connection this server passes through (RFC 9293, Section 3.3.2). Each
/// synchronized state carries its send window.
#[derive(Clone, Copy, Debug, PartialEq, Eq, Structural)]
pub enum TcpState {
    /// Waiting for the acknowledgment of our SYN-ACK, after receiving a SYN.
    SynReceived,
    /// An open connection: the normal state for the data transfer phase.
    Established(WindowState),
    /// We closed first (sent our FIN) and wait for its acknowledgment or the peer's FIN.
    FinWait1(WindowState),
    /// Our FIN was acknowledged; waiting for the peer's FIN.
    FinWait2(WindowState),
    /// The peer closed first; its FIN was received while our data is still being sent.
    CloseWait(WindowState),
    /// Both sides sent a FIN before either was acknowledged (simultaneous close).
    Closing(WindowState),
    /// The peer closed first and we sent our own FIN; waiting for its acknowledgment.
    LastAck(WindowState),
}

/// The fields that differ between outgoing segments: sequence and acknowledgment numbers, control
/// bits, and payload.
#[derive(Debug, PartialEq, Eq)]
pub struct SendInfo {
    pub seq_num: SeqPoint,
    pub ack_num: SeqPoint,
    pub flags: TcpFlags,
    pub payload: Option<TcpPayload>,
}

/// A `SendInfo` as plain values.
pub struct SendInfoView {
    pub seq_num: u32,
    pub ack_num: u32,
    pub flags: TcpFlags,
    pub payload: Seq<u8>,
}

impl View for SendInfo {
    type V = SendInfoView;

    open spec fn view(&self) -> SendInfoView {
        SendInfoView {
            seq_num: self.seq_num.value,
            ack_num: self.ack_num.value,
            flags: self.flags,
            payload: payload_bytes(self.payload),
        }
    }
}

impl Clone for SendInfo {
    fn clone(&self) -> (r: Self)
        ensures
            r@ == self@,
    {
        let payload = match &self.payload {
            None => None,
            Some(p) => Some(p.clone()),
        };
        SendInfo { seq_num: self.seq_num, ack_num: self.ack_num, flags: self.flags, payload }
    }
}

/// An unacknowledged segment sent by the server, kept for retransmission.
#[derive(Debug)]
pub struct PendingSegment {
    pub send_info: SendInfo,
    /// When the segment was last sent, in milliseconds on the caller's clock.
    pub last_sent: u64,
    /// How many times the segment has been retransmitted.
    pub retries: u8,
}

/// A `PendingSegment` as plain values.
pub struct PendingView {
    pub info: SendInfoView,
    pub last_sent: u64,
    pub retries: u8,
}

impl View for PendingSegment {
    type V = PendingView;

    open spec fn view(&self) -> PendingView {
        PendingView { info: self.send_info@, last_sent: self.last_sent, retries: self.retries }
    }
}

impl PendingSegment {
    /// A segment just sent at `now` for the first time.
    pub fn new(send_info: SendInfo, now: u64) -> (r: Self)
        ensures
            r@ == (PendingView { info: send_info@, last_sent: now, retries: 0 }),
    {
        PendingSegment { send_info, last_sent: now, retries: 0 }
    }
}

/// The sequence numbers a segment occupies: its payload bytes plus one for a SYN or FIN.
pub open spec fn seq_len(info: SendInfoView) -> int {
    info.payload.len() + match info.flags {
        TcpFlags::Syn | TcpFlags::SynAck | TcpFlags::FinAck => 1int,
        _ => 0int,
    }
}

/// An acknowledgment of `ack` covers every sequence number a sent segment occupies.
pub open spec fn covered_by(info: SendInfoView, ack: u32) -> bool {
    seq_precedes_or_eq(seq_add(info.seq_num, seq_len(info)), ack)
}

/// The pending segments, in order, that an acknowledgment of `ack` leaves uncovered.
pub open spec fn keep_uncovered(ps: Seq<PendingView>, ack: u32) -> Seq<PendingView>
    decreases ps.len(),
{
    if ps.len() == 0 {
        ps
    } else {
        let rest = keep_uncovered(ps.drop_last(), ack);
        if covered_by(ps.last().info, ack) {
            rest
        } else {
            rest.push(ps.last())
        }
    }
}

/// The state of a connection in the table: its TCP state, sequence variables, and buffered data.
#[derive(Debug)]
pub struct ConnState {
    pub tcp_state: TcpState,
    /// "SND.NXT = next sequence number to be sent" (RFC 9293, Section 3.4).
    pub snd_nxt: SeqPoint,
    /// "RCV.NXT = next sequence number expected on an incoming segment".
    pub rcv_nxt: SeqPoint,
    /// "SND.UNA = oldest unacknowledged sequence number".
    pub snd_una: SeqPoint,
    /// Unacknowledged segments sent by the server, kept for retransmission, oldest first.
    pub pending: Vec<PendingSegment>,
    /// What the application answered to the bytes received, queued until SND.WND has room for it.
    pub send_buffer: Vec<u8>,
    /// Segments received ahead of RCV.NXT, held until the gap before them closes.
    pub reassembly: TcpReassembly,
    /// The application that decides what goes back for the data received.
    pub app: ServerApp,
}

/// A `ConnState` as plain values.
pub struct ConnView {
    pub tcp_state: TcpState,
    pub snd_nxt: u32,
    pub rcv_nxt: u32,
    pub snd_una: u32,
    pub pending: Seq<PendingView>,
    pub send_buffer: Seq<u8>,
    pub segments: Seq<SegmentView>,
    pub fin: Option<u32>,
    pub app: ServerApp,
}

impl View for ConnState {
    type V = ConnView;

    open spec fn view(&self) -> ConnView {
        ConnView {
            tcp_state: self.tcp_state,
            snd_nxt: self.snd_nxt.value,
            rcv_nxt: self.rcv_nxt.value,
            snd_una: self.snd_una.value,
            pending: self.pending@.map_values(|p: PendingSegment| p@),
            send_buffer: self.send_buffer@,
            segments: self.reassembly.segments_view(),
            fin: self.reassembly.fin_view(),
            app: self.app,
        }
    }
}

impl ConnState {
    /// Well-formedness: the reassembly buffer is well formed.
    pub open spec fn wf(&self) -> bool {
        self.reassembly.wf()
    }

    /// Creates a connection in the state right after receiving a SYN and sending the SYN-ACK
    /// `send_info` at `now`: SYN-RECEIVED, with the SYN-ACK pending.
    ///
    /// # Errors
    ///
    /// Returns `Err` if the flags are not SYN-ACK.
    pub fn from_syn_ack(send_info: SendInfo, now: u64, app: ServerApp) -> (r: Result<ConnState, StackError>)
        ensures
            (r is Ok) == (send_info.flags == TcpFlags::SynAck),
            (r matches Err(e) ==> e == StackError::NotSynAck),
            (r matches Ok(c) ==> c.wf() && c@ == syn_received_conn(send_info@, now, app)),
    {
        if send_info.flags != TcpFlags::SynAck {
            return Err(StackError::NotSynAck);
        }
        let ghost info = send_info@;
        let seq = send_info.seq_num;
        let ack = send_info.ack_num;
        let mut pending = Vec::new();
        pending.push(PendingSegment::new(send_info, now));
        let c = ConnState {
            tcp_state: TcpState::SynReceived,
            // SYN-ACK consumes one sequence number
            snd_nxt: seq.add(super::seq_space::SeqOffset { value: 1 }),
            // Our SYN-ACK's `ack_num` is the client's ISN + 1
            rcv_nxt: ack,
            // Our SYN-ACK is unacknowledged (this is our ISN)
            snd_una: seq,
            pending,
            send_buffer: Vec::new(),
            reassembly: TcpReassembly::new(),
            app,
        };
        assert(c@.pending =~= seq![PendingView { info, last_sent: now, retries: 0 }]);
        Ok(c)
    }
}

/// A connection run by `app` that just sent the SYN-ACK `info` at `now`.
pub open spec fn syn_received_conn(info: SendInfoView, now: u64, app: ServerApp) -> ConnView {
    ConnView {
        tcp_state: TcpState::SynReceived,
        snd_nxt: seq_add(info.seq_num, 1),
        rcv_nxt: info.ack_num,
        snd_una: info.seq_num,
        pending: seq![PendingView { info, last_sent: now, retries: 0 }],
        send_buffer: Seq::empty(),
        segments: Seq::empty(),
        fin: None,
        app,
    }
}

/// Per RFC 9293, Section 3.10.7.4, "Fifth, check the ACK field," processes an incoming
/// segment's acknowledgment against the send-side state: an acknowledgment in
/// `SND.UNA..=SND.NXT` that is new advances SND.UNA and drops the pending segments it covers, and
/// one that is not stale (SND.WL1 < SEG.SEQ, or SND.WL1 == SEG.SEQ and SND.WL2 <= SEG.ACK) adopts
/// the segment's window. Old acknowledgments and ones for data not yet sent change nothing.
pub open spec fn ack_update(ws: WindowState, c: ConnView, f: TcpFields) -> (WindowState, ConnView) {
    if seq_precedes_or_eq(c.snd_una, f.ack_num) && seq_precedes_or_eq(f.ack_num, c.snd_nxt) {
        let c2 = if seq_precedes(c.snd_una, f.ack_num) {
            ConnView {
                snd_una: f.ack_num,
                pending: keep_uncovered(c.pending, f.ack_num),
                ..c
            }
        } else {
            c
        };
        let ws2 = if seq_precedes(ws.snd_wl1.value, f.seq_num) || (ws.snd_wl1.value == f.seq_num
            && seq_precedes_or_eq(ws.snd_wl2.value, f.ack_num)) {
            WindowState {
                snd_wnd: f.window,
                snd_wl1: SeqPoint { value: f.seq_num },
                snd_wl2: SeqPoint { value: f.ack_num },
            }
        } else {
            ws
        };
        (ws2, c2)
    } else {
        (ws, c)
    }
}

/// Takes as much from the front of the send buffer as the peer's window `ws` allows beyond the
/// data in flight (SND.NXT - SND.UNA), up to one segment's worth; fails if SND.UNA does not
/// precede or equal SND.NXT. Returns the bytes taken (possibly none) and the connection without
/// them.
pub open spec fn drain_transmittable(ws: WindowState, c: ConnView) -> Result<(Seq<u8>, ConnView), StackError> {
    if !seq_precedes_or_eq(c.snd_una, c.snd_nxt) {
        Err(StackError::UnackedPastNext)
    } else {
        let in_flight = seq_dist(c.snd_nxt, c.snd_una);
        let space = if ws.snd_wnd >= in_flight {
            ws.snd_wnd - in_flight
        } else {
            0
        };
        let n = min3(space, c.send_buffer.len() as int, MAX_PAYLOAD_LEN as int);
        Ok((c.send_buffer.take(n), ConnView { send_buffer: c.send_buffer.skip(n), ..c }))
    }
}

/// The smallest of three values.
pub open spec fn min3(a: int, b: int, c: int) -> int {
    let ab = if a <= b {
        a
    } else {
        b
    };
    if ab <= c {
        ab
    } else {
        c
    }
}

impl ConnState {
    /// Processes the acknowledgment of `seg` against the send-side state and window `ws` (see
    /// `ack_update`), updating `self` and returning the new window.
    pub fn incoming_ack_update(&mut self, ws: WindowState, seg: &super::TcpSegment) -> (r: WindowState)
        requires
            old(self).wf(),
        ensures
            final(self).wf(),
            (r, final(self)@) == ack_update(ws, old(self)@, super::tcp_fields(*seg)),
    {
        if self.snd_una.precedes_or_eq(seg.ack_num) && seg.ack_num.precedes_or_eq(self.snd_nxt) {
            // Exclude duplicate ACKs: SND.UNA < SEG.ACK <= SND.NXT
            if self.snd_una.precedes(seg.ack_num) {
                self.snd_una = seg.ack_num;
                // ACKs are cumulative, so only keep pending segments not fully covered by SEG.ACK
                retain_uncovered(&mut self.pending, seg.ack_num.value);
            }
            // Guard against an old/reordered segment clobbering the window with stale data
            if ws.snd_wl1.precedes(seg.seq_num) || (ws.snd_wl1.value == seg.seq_num.value
                && ws.snd_wl2.precedes_or_eq(seg.ack_num)) {
                WindowState { snd_wnd: seg.window, snd_wl1: seg.seq_num, snd_wl2: seg.ack_num }
            } else {
                ws
            }
        } else {
            ws
        }
    }

    /// Removes and returns as many bytes as possible from the front of the send buffer, bounded by
    /// the peer's window `ws` and the maximum length of a segment, or `Ok(None)` if nothing can be
    /// sent (see `drain_transmittable`). Changes nothing else.
    pub fn drain_transmittable(&mut self, ws: WindowState) -> (r: Result<Option<TcpPayload>, StackError>)
        requires
            old(self).wf(),
        ensures
            final(self).wf(),
            (match r {
                Err(e) => drain_transmittable(ws, old(self)@) == Err::<(Seq<u8>, ConnView), _>(e)
                    && final(self)@ == old(self)@,
                Ok(p) => drain_transmittable(ws, old(self)@) == Ok::<_, StackError>(
                    (payload_bytes(p), final(self)@),
                ),
            }),
            (r matches Ok(Some(p)) ==> 0 < p@.len() <= MAX_PAYLOAD_LEN),
    {
        let in_flight = match self.snd_nxt.offset_past(self.snd_una) {
            Some(o) => o.value,
            None => return Err(StackError::UnackedPastNext),
        };
        let space: u32 = if ws.snd_wnd as u32 >= in_flight {
            ws.snd_wnd as u32 - in_flight
        } else {
            0
        };
        let mut n = space as usize;
        if self.send_buffer.len() < n {
            n = self.send_buffer.len();
        }
        if MAX_PAYLOAD_LEN < n {
            n = MAX_PAYLOAD_LEN;
        }
        let ghost old_buf = self.send_buffer@;
        let taken = split_front(&mut self.send_buffer, n);
        assert(taken@.len() <= MAX_PAYLOAD_LEN);
        let r = TcpPayload::try_from_bytes(taken);
        assert(r is Ok);
        assert(n == 0 ==> old_buf.take(0) =~= Seq::<u8>::empty());
        assert(self@ == (ConnView { send_buffer: old_buf.skip(n as int), ..old(self)@ }));
        r
    }
}

/// Removes the first `n` bytes of `buf` and returns them.
pub fn split_front(buf: &mut Vec<u8>, n: usize) -> (r: Vec<u8>)
    requires
        n <= old(buf)@.len(),
    ensures
        r@ == old(buf)@.take(n as int),
        final(buf)@ == old(buf)@.skip(n as int),
{
    let mut front: Vec<u8> = Vec::new();
    let mut back: Vec<u8> = Vec::new();
    let mut i: usize = 0;
    while i < buf.len()
        invariant
            i <= buf@.len(),
            buf@ == old(buf)@,
            n <= buf@.len(),
            front@ =~= buf@.subrange(0, if i < n { i as int } else { n as int }),
            back@ =~= buf@.subrange(n as int, if i < n { n as int } else { i as int }),
        decreases buf@.len() - i,
    {
        if i < n {
            front.push(buf[i]);
        } else {
            back.push(buf[i]);
        }
        i = i + 1;
    }
    *buf = back;
    front
}

/// Keeps only the pending segments that an acknowledgment of `ack` leaves uncovered, in order.
fn retain_uncovered(pending: &mut Vec<PendingSegment>, ack: u32)
    ensures
        final(pending)@.map_values(|p: PendingSegment| p@) == keep_uncovered(
            old(pending)@.map_values(|p: PendingSegment| p@),
            ack,
        ),
{
    let ghost orig = pending@.map_values(|p: PendingSegment| p@);
    let mut kept: Vec<PendingSegment> = Vec::new();
    let mut i: usize = 0;
    let n = pending.len();
    let mut rest: Vec<PendingSegment> = Vec::new();
    std::mem::swap(&mut rest, pending);
    // Walk the segments front to back by reversing once and popping from the end
    let mut reversed: Vec<PendingSegment> = Vec::new();
    while rest.len() > 0
        invariant
            rest@.len() + reversed@.len() == n,
            n == orig.len(),
            forall|k: int| 0 <= k < rest@.len() ==> #[trigger] rest@[k]@ == orig[k],
            forall|k: int|
                0 <= k < reversed@.len() ==> #[trigger] reversed@[k]@ == orig[n - 1 - k],
        decreases rest@.len(),
    {
        let p = rest.pop().unwrap();
        reversed.push(p);
    }
    while i < n
        invariant
            i <= n,
            n == orig.len(),
            reversed@.len() == n - i,
            forall|k: int|
                0 <= k < reversed@.len() ==> #[trigger] reversed@[k]@ == orig[n - 1 - k],
            kept@.map_values(|p: PendingSegment| p@) == keep_uncovered(orig.take(i as int), ack),
        decreases n - i,
    {
        let p = reversed.pop().unwrap();
        assert(p@ == orig[i as int]);
        assert(orig.take(i + 1).drop_last() =~= orig.take(i as int));
        assert(orig.take(i + 1).last() == orig[i as int]);
        let covered = is_covered_by(&p.send_info, ack);
        if !covered {
            let ghost before = kept@.map_values(|p: PendingSegment| p@);
            kept.push(p);
            assert(kept@.map_values(|p: PendingSegment| p@) =~= before.push(orig[i as int]));
        }
        i = i + 1;
    }
    assert(orig.take(n as int) =~= orig);
    *pending = kept;
}

/// Returns whether an acknowledgment of `ack` covers every sequence number `info` occupies.
pub fn is_covered_by(info: &SendInfo, ack: u32) -> (r: bool)
    ensures
        r == covered_by(info@, ack),
{
    let plen: u32 = match &info.payload {
        None => 0,
        Some(p) => p.len() as u32,
    };
    let phantom: u32 = match info.flags {
        TcpFlags::Syn | TcpFlags::SynAck | TcpFlags::FinAck => 1,
        _ => 0,
    };
    let end = info.seq_num.add(super::seq_space::SeqOffset { value: plen + phantom });
    end.precedes_or_eq(SeqPoint { value: ack })
}


/// An acknowledgment removes exactly the pending segments it covers: none that is kept is
/// covered, and every uncovered one is kept.
pub proof fn lemma_ack_keeps_only_uncovered(ps: Seq<PendingView>, ack: u32)
    ensures
        forall|i: int|
            0 <= i < keep_uncovered(ps, ack).len() ==> !covered_by(
                (#[trigger] keep_uncovered(ps, ack)[i]).info,
                ack,
            ),
        forall|i: int|
            0 <= i < ps.len() && !covered_by(ps[i].info, ack) ==> keep_uncovered(ps, ack).contains(
                #[trigger] ps[i],
            ),
    decreases ps.len(),
{
    if ps.len() > 0 {
        let rest = keep_uncovered(ps.drop_last(), ack);
        lemma_ack_keeps_only_uncovered(ps.drop_last(), ack);
        assert forall|i: int|
            0 <= i < ps.len() && !covered_by(ps[i].info, ack) implies keep_uncovered(ps, ack).contains(
            #[trigger] ps[i]) by {
            if i < ps.len() - 1 {
                assert(ps.drop_last()[i] == ps[i]);
                assert(rest.contains(ps[i]));
                if !covered_by(ps.last().info, ack) {
                    let k = choose|k: int| 0 <= k < rest.len() && rest[k] == ps[i];
                    assert(rest.push(ps.last())[k] == ps[i]);
                }
            } else {
                assert(keep_uncovered(ps, ack)[rest.len() as int] == ps[i]);
            }
        }
    }
}

/// Flow control: the bytes taken from the send buffer are its front, at most one segment's
/// worth, and they never carry the data in flight past the peer's window; what stays buffered is
/// the rest, in order.
pub proof fn lemma_drain_respects_window(ws: WindowState, c: ConnView)
    requires
        drain_transmittable(ws, c) is Ok,
    ensures
        drain_transmittable(ws, c) matches Ok((taken, c2)) && taken + c2.send_buffer == c.send_buffer
            && taken.len() <= MAX_PAYLOAD_LEN && (taken.len() == 0 || seq_dist(c.snd_nxt, c.snd_una)
            + taken.len() <= ws.snd_wnd),
{
    let in_flight = seq_dist(c.snd_nxt, c.snd_una);
    let space = if ws.snd_wnd >= in_flight {
        ws.snd_wnd - in_flight
    } else {
        0
    };
    let n = min3(space, c.send_buffer.len() as int, MAX_PAYLOAD_LEN as int);
    assert(c.send_buffer.take(n) + c.send_buffer.skip(n) =~= c.send_buffer);
}

/// The sequence numbers a segment occupies, counted from its flags and payload: one per payload
/// byte, plus one for a SYN or FIN.
pub open spec fn occupied(info: SendInfoView) -> int {
    info.payload.len() + if info.flags == TcpFlags::Syn || info.flags == TcpFlags::SynAck
        || info.flags == TcpFlags::FinAck {
        1int
    } else {
        0int
    }
}

/// Adding less than a full circle to a sequence number: the plain sum, less one circle if it
/// wraps.
proof fn lemma_seq_add_value(p: u32, n: int)
    requires
        0 <= n < seq_modulus(),
    ensures
        seq_add(p, n) == if p + n < seq_modulus() {
            p + n
        } else {
            p + n - seq_modulus()
        },
{
    if p + n < seq_modulus() {
        vstd::arithmetic::div_mod::lemma_fundamental_div_mod_converse(p + n, seq_modulus(), 0, p + n);
    } else {
        vstd::arithmetic::div_mod::lemma_fundamental_div_mod_converse(
            p + n,
            seq_modulus(),
            1,
            p + n - seq_modulus(),
        );
    }
}

/// ACKs are cumulative (RFC 9293, Section 3.10.7.4): an acknowledgment covers a sent segment
/// exactly when it acknowledges every sequence number the segment occupies. An ACK landing on any
/// number the segment occupies (its first included) leaves it pending; an ACK at its end, or up to
/// half the sequence space past it, covers it. (The segment occupies less than half the space.)
pub proof fn lemma_ack_covers_only_whole_segments(info: SendInfoView, k: int, m: int)
    requires
        0 < occupied(info) < half_space(),
        0 <= k < occupied(info),
        occupied(info) <= m <= occupied(info) + half_space(),
    ensures
        !covered_by(info, seq_add(info.seq_num, k)),
        covered_by(info, seq_add(info.seq_num, m)),
{
    let s = info.seq_num;
    let l = occupied(info);
    assert(seq_len(info) == l);
    lemma_seq_add_value(s, k);
    lemma_seq_add_value(s, l);
    lemma_seq_add_value(s, m);
}

} // verus!
