use super::flags::TcpFlags;
use super::send_info::{handle_known, handle_known_exec, opt_view, unknown_conn_reply};
use super::seq_space::{SeqOffset, SeqPoint};
use super::seq_space::seq_add;
use super::state::{
    syn_received_conn, ConnState, ConnView, PendingSegment, PendingView, SendInfo, SendInfoView,
    TcpState,
};
use super::{tcp_fields, TcpFields, TcpSegment};
use crate::application::ServerApp;
use crate::error::StackError;
use vstd::prelude::*;

verus! {

/// The 4-tuple that identifies a connection.
#[derive(Clone, Copy, Debug, PartialEq, Eq, Structural)]
pub struct ConnKey {
    pub client_ip: u32,
    pub client_port: u16,
    pub server_ip: u32,
    pub server_port: u16,
}

/// The connection an incoming segment belongs to: the client is its source, the server its
/// destination.
pub open spec fn key_of(f: TcpFields) -> ConnKey {
    ConnKey {
        client_ip: f.ip_pair.src,
        client_port: f.ports.src,
        server_ip: f.ip_pair.dst,
        server_port: f.ports.dst,
    }
}

/// The connection table as plain values: each key with its connection, in table order.
pub type TableView = Seq<(ConnKey, ConnView)>;

/// No key occurs twice in the table.
pub open spec fn keys_distinct(t: TableView) -> bool {
    forall|i: int, j: int| 0 <= i < t.len() && 0 <= j < t.len() && i != j ==> t[i].0 != t[j].0
}

/// Whether the table holds a connection under `key`.
pub open spec fn has_key(t: TableView, key: ConnKey) -> bool {
    exists|i: int| 0 <= i < t.len() && #[trigger] t[i].0 == key
}

/// The position of `key` in the table (meaningful where `has_key` holds).
pub open spec fn key_index(t: TableView, key: ConnKey) -> int {
    choose|i: int| 0 <= i < t.len() && #[trigger] t[i].0 == key
}

/// The fields of an outgoing segment on the connection `key` with the varying fields of `info`:
/// from the server to the client, with a 20-byte header and the largest receive window.
pub open spec fn reply_fields(key: ConnKey, info: SendInfoView) -> TcpFields {
    TcpFields {
        ip_pair: crate::addr_pairs::Ipv4AddrPair { src: key.server_ip, dst: key.client_ip },
        ports: crate::addr_pairs::PortPair { src: key.server_port, dst: key.client_port },
        seq_num: info.seq_num,
        ack_num: info.ack_num,
        offset_bytes: 20,
        flags: info.flags,
        window: 0xFFFF,
        payload: info.payload,
    }
}

/// The reply to the incoming segment `f` and the table after it, or the error met while deciding
/// it. A segment of an unknown connection is answered as in `unknown_conn_reply` (a SYN also
/// opens the connection, served by `app`, whose SYN-ACK goes out at `now` with initial sequence
/// number `isn`); one of a known connection as in `handle_known`, after which the connection is
/// updated in place or removed.
pub open spec fn decide_reply_spec(t: TableView, f: TcpFields, isn: u32, now: u64, app: ServerApp) -> Result<(Option<SendInfoView>, TableView), StackError> {
    let key = key_of(f);
    if has_key(t, key) {
        let i = key_index(t, key);
        match handle_known(f, t[i].1, now) {
            Err((e, _)) => Err(e),
            Ok((reply, c, remove)) => Ok(
                (
                    reply,
                    if remove {
                        t.remove(i)
                    } else {
                        t.update(i, (key, c))
                    },
                ),
            ),
        }
    } else {
        let reply = unknown_conn_reply(f, isn);
        if f.flags == TcpFlags::Syn {
            Ok((reply, t.push((key, syn_received_conn(reply->0, now, app)))))
        } else {
            Ok((reply, t))
        }
    }
}

/// The table left when deciding the reply to `f` fails: the known connection stays in place as
/// the failing step of `handle_known` left it; a new connection is never stored.
pub open spec fn failed_table(t: TableView, f: TcpFields, now: u64) -> TableView {
    let key = key_of(f);
    if has_key(t, key) {
        let i = key_index(t, key);
        match handle_known(f, t[i].1, now) {
            Err((_, c)) => t.update(i, (key, c)),
            Ok(_) => t,
        }
    } else {
        t
    }
}

/// Retransmission timeout settings, in milliseconds: the timeout before the first retransmission,
/// and the bounds that the doubled timeouts are held within.
#[derive(Clone, Copy, Debug, PartialEq, Eq, Structural)]
pub struct RtoConfig {
    pub initial: u64,
    pub min: u64,
    pub max: u64,
}

impl Default for RtoConfig {
    /// One second at first, never below 200 ms nor above two minutes (the Linux kernel's bounds).
    fn default() -> (r: Self)
        ensures
            r == (RtoConfig { initial: 1000, min: 200, max: 120_000 }),
    {
        RtoConfig { initial: 1000, min: 200, max: 120_000 }
    }
}

/// The table of TCP connections, keyed by 4-tuple, with the retransmission settings that apply to
/// all of them.
#[derive(Debug)]
pub struct TcpConnections {
    pub entries: Vec<(ConnKey, ConnState)>,
    pub rto: RtoConfig,
    /// How many times a segment is retransmitted before its connection is dropped.
    pub max_retries: u8,
}

/// The view of one table entry.
pub open spec fn entry_view(e: (ConnKey, ConnState)) -> (ConnKey, ConnView) {
    (e.0, e.1@)
}

impl TcpConnections {
    /// The connections as plain values, in table order.
    pub open spec fn table(&self) -> TableView {
        self.entries@.map_values(|e: (ConnKey, ConnState)| entry_view(e))
    }

    /// Well-formedness: no key occurs twice and every connection is well formed.
    pub open spec fn wf(&self) -> bool {
        &&& keys_distinct(self.table())
        &&& forall|i: int| 0 <= i < self.entries@.len() ==> (#[trigger] self.entries@[i]).1.wf()
    }

    /// An empty table with the given retransmission settings.
    pub fn new(rto: RtoConfig, max_retries: u8) -> (r: Self)
        ensures
            r.wf(),
            r.table() == Seq::<(ConnKey, ConnView)>::empty(),
            r.rto == rto,
            r.max_retries == max_retries,
    {
        let r = TcpConnections { entries: Vec::new(), rto, max_retries };
        assert(r.table() =~= Seq::<(ConnKey, ConnView)>::empty());
        r
    }

    /// The number of connections.
    pub fn len(&self) -> (r: usize)
        ensures
            r == self.table().len(),
    {
        self.entries.len()
    }

    /// The position of `key` in the table, if present.
    fn find(&self, key: &ConnKey) -> (r: Option<usize>)
        requires
            self.wf(),
        ensures
            r is None <==> !has_key(self.table(), *key),
            r matches Some(i) ==> i < self.table().len() && i == key_index(self.table(), *key),
    {
        let mut i: usize = 0;
        while i < self.entries.len()
            invariant
                self.wf(),
                i <= self.entries@.len(),
                forall|j: int| 0 <= j < i ==> (#[trigger] self.table()[j]).0 != *key,
            decreases self.entries@.len() - i,
        {
            if self.entries[i].0 == *key {
                assert(self.table()[i as int].0 == *key);
                let ghost k = key_index(self.table(), *key);
                assert(self.table()[k].0 == *key);
                return Some(i);
            }
            assert(self.table()[i as int].0 != *key);
            i = i + 1;
        }
        None
    }

    /// The connection under `key`, if any.
    pub fn get(&self, key: &ConnKey) -> (r: Option<&ConnState>)
        requires
            self.wf(),
        ensures
            r is None <==> !has_key(self.table(), *key),
            r matches Some(c) ==> c@ == self.table()[key_index(self.table(), *key)].1 && c.wf(),
    {
        match self.find(key) {
            None => None,
            Some(i) => {
                assert(self.table()[i as int] == entry_view(self.entries@[i as int]));
                Some(&self.entries[i].1)
            },
        }
    }

    /// Stores `conn` under `key`, replacing any connection already there.
    pub fn insert(&mut self, key: ConnKey, conn: ConnState)
        requires
            old(self).wf(),
            conn.wf(),
        ensures
            final(self).wf(),
            final(self).rto == old(self).rto,
            final(self).max_retries == old(self).max_retries,
            has_key(old(self).table(), key) ==> final(self).table() == old(self).table().update(
                key_index(old(self).table(), key),
                (key, conn@),
            ),
            !has_key(old(self).table(), key) ==> final(self).table() == old(self).table().push(
                (key, conn@),
            ),
    {
        let ghost t = self.table();
        let ghost cv = conn@;
        match self.find(&key) {
            Some(i) => {
                self.entries.set(i, (key, conn));
                assert(self.table() =~= t.update(i as int, (key, cv)));
            },
            None => {
                self.entries.push((key, conn));
                assert(self.table() =~= t.push((key, cv)));
                assert forall|i: int, j: int|
                    0 <= i < self.table().len() && 0 <= j < self.table().len() && i != j
                        implies self.table()[i].0 != self.table()[j].0 by {
                    if i == t.len() {
                        assert(!(t[j].0 == key));
                    } else if j == t.len() {
                        assert(!(t[i].0 == key));
                    }
                }
            },
        }
    }

    /// Removes the connection under `key`, if any.
    pub fn remove(&mut self, key: &ConnKey)
        requires
            old(self).wf(),
        ensures
            final(self).wf(),
            final(self).rto == old(self).rto,
            final(self).max_retries == old(self).max_retries,
            has_key(old(self).table(), *key) ==> final(self).table() == old(self).table().remove(
                key_index(old(self).table(), *key),
            ),
            !has_key(old(self).table(), *key) ==> final(self).table() == old(self).table(),
    {
        let ghost t = self.table();
        match self.find(key) {
            Some(i) => {
                self.entries.remove(i);
                assert(self.table() =~= t.remove(i as int));
                assert forall|a: int, b: int|
                    0 <= a < self.table().len() && 0 <= b < self.table().len() && a != b
                        implies self.table()[a].0 != self.table()[b].0 by {
                    let a2 = if a < i { a } else { a + 1 };
                    let b2 = if b < i { b } else { b + 1 };
                    assert(t[a2].0 != t[b2].0);
                }
                assert forall|a: int| 0 <= a < self.entries@.len() implies (
                #[trigger] self.entries@[a]).1.wf() by {
                    let a2 = if a < i { a } else { a + 1 };
                    assert(old(self).entries@[a2].1.wf());
                }
            },
            None => {},
        }
    }
}

impl SendInfo {
    /// Decides the reply to the incoming segment `seg`, or `Ok(None)` for no reply, updating the
    /// connection table (see `decide_reply_spec`). A SYN opens a connection served by `app`, with
    /// `isn` as the initial sequence number; `now` is when any segment sent is recorded as sent.
    pub fn decide_reply(
        seg: &TcpSegment,
        connections: &mut TcpConnections,
        app: ServerApp,
        isn: u32,
        now: u64,
    ) -> (r: Result<Option<SendInfo>, StackError>)
        requires
            old(connections).wf(),
        ensures
            final(connections).wf(),
            final(connections).rto == old(connections).rto,
            final(connections).max_retries == old(connections).max_retries,
            r is Err ==> final(connections).table() == failed_table(old(connections).table(), tcp_fields(*seg), now),
            (match r {
                Ok(reply) => decide_reply_spec(old(connections).table(), tcp_fields(*seg), isn, now, app)
                    == Ok::<_, StackError>((opt_view(reply), final(connections).table())),
                Err(e) => decide_reply_spec(old(connections).table(), tcp_fields(*seg), isn, now, app)
                    == Err::<(Option<SendInfoView>, TableView), _>(e),
            }),
    {
        let key = ConnKey {
            client_ip: seg.ip_pair.src,
            client_port: seg.ports.src,
            server_ip: seg.ip_pair.dst,
            server_port: seg.ports.dst,
        };
        let ghost t = connections.table();
        let ghost f = tcp_fields(*seg);
        match connections.find(&key) {
            None => match seg.flags {
                // SYN (step 1 of handshake) -> store new connection, reply with SYN-ACK (step 2)
                TcpFlags::Syn => {
                    let send_info = SendInfo {
                        seq_num: SeqPoint { value: isn },
                        ack_num: seg.seq_num.add(SeqOffset { value: 1 }),
                        flags: TcpFlags::SynAck,
                        payload: None,
                    };
                    let conn = match ConnState::from_syn_ack(send_info.clone(), now, app) {
                        Ok(c) => c,
                        Err(e) => return Err(e),
                    };
                    connections.insert(key, conn);
                    Ok(Some(send_info))
                },
                // RST from an unknown connection -> silently drop (never RST a RST)
                TcpFlags::Rst | TcpFlags::RstAck => Ok(None),
                // Anything else -> <SEQ=SEG.ACK><CTL=RST>
                _ => Ok(Some(SendInfo::rst(seg))),
            },
            Some(i) => {
                let (k, mut conn) = connections.entries.remove(i);
                assert(t[i as int] == entry_view((k, conn)));
                assert(conn.wf()) by {
                    assert(old(connections).entries@[i as int].1.wf());
                }
                let ghost c0 = conn@;
                let decided = handle_known_exec(seg, &mut conn, now);
                let ghost c1 = conn@;
                let ghost removed = connections.table();
                assert(removed =~= t.remove(i as int));
                match decided {
                    Ok((reply, true)) => {
                        assert forall|a: int, b: int|
                            0 <= a < connections.table().len() && 0 <= b < connections.table().len()
                                && a != b implies connections.table()[a].0
                            != connections.table()[b].0 by {
                            let a2 = if a < i { a } else { a + 1 };
                            let b2 = if b < i { b } else { b + 1 };
                            assert(t[a2].0 != t[b2].0);
                        }
                        assert forall|a: int| 0 <= a < connections.entries@.len() implies (
                        #[trigger] connections.entries@[a]).1.wf() by {
                            let a2 = if a < i { a } else { a + 1 };
                            assert(old(connections).entries@[a2].1.wf());
                        }
                        Ok(reply)
                    },
                    _ => {
                        connections.entries.insert(i, (k, conn));
                        assert(connections.table() =~= t.update(i as int, (key, c1)));
                        assert forall|a: int, b: int|
                            0 <= a < connections.table().len() && 0 <= b < connections.table().len()
                                && a != b implies connections.table()[a].0
                            != connections.table()[b].0 by {
                            assert(t[a].0 != t[b].0);
                        }
                        assert forall|a: int| 0 <= a < connections.entries@.len() implies (
                        #[trigger] connections.entries@[a]).1.wf() by {
                            if a != i {
                                assert(old(connections).entries@[a].1.wf());
                            }
                        }
                        match decided {
                            Ok((reply, _)) => Ok(reply),
                            Err(e) => Err(e),
                        }
                    },
                }
            },
        }
    }
}


/// The FIN-ACK that actively closes `c`: SEG.SEQ=SND.NXT, SEG.ACK=RCV.NXT, no payload.
pub open spec fn fin_info(c: ConnView) -> SendInfoView {
    SendInfoView { seq_num: c.snd_nxt, ack_num: c.rcv_nxt, flags: TcpFlags::FinAck, payload: Seq::empty() }
}

/// `c` after an active close at `now`: an ESTABLISHED connection sends its FIN-ACK (which then
/// consumes one sequence number and is pending) and moves to FIN-WAIT-1 with the same window; a
/// connection in any other state is left as it is.
pub open spec fn close_conn(c: ConnView, now: u64) -> ConnView {
    match c.tcp_state {
        TcpState::Established(ws) => ConnView {
            tcp_state: TcpState::FinWait1(ws),
            snd_nxt: seq_add(c.snd_nxt, 1),
            pending: c.pending.push(PendingView { info: fin_info(c), last_sent: now, retries: 0 }),
            ..c
        },
        _ => c,
    }
}

/// The table after closing every ESTABLISHED connection at `now`.
pub open spec fn close_table(t: TableView, now: u64) -> TableView {
    t.map_values(|e: (ConnKey, ConnView)| (e.0, close_conn(e.1, now)))
}

/// The FIN-ACKs that closing every ESTABLISHED connection sends, in table order.
pub open spec fn closing_segments(t: TableView) -> Seq<TcpFields>
    decreases t.len(),
{
    if t.len() == 0 {
        Seq::empty()
    } else {
        let rest = closing_segments(t.drop_last());
        match t.last().1.tcp_state {
            TcpState::Established(_) => rest.push(reply_fields(t.last().0, fin_info(t.last().1))),
            _ => rest,
        }
    }
}

/// Whether a connection in state `s` is in the middle of closing: every state but SYN-RECEIVED
/// and ESTABLISHED.
pub open spec fn is_closing(s: TcpState) -> bool {
    !(s is SynReceived) && !(s is Established)
}

/// The fields of a list of outgoing segments.
pub open spec fn segs_fields(v: Seq<TcpSegment>) -> Seq<TcpFields> {
    v.map_values(|s: TcpSegment| tcp_fields(s))
}

/// The outgoing segment on the connection `key` carrying `info`.
pub fn reply_segment(key: ConnKey, info: SendInfo) -> (r: TcpSegment)
    ensures
        tcp_fields(r) == reply_fields(key, info@),
{
    TcpSegment {
        ip_pair: crate::addr_pairs::Ipv4AddrPair { src: key.server_ip, dst: key.client_ip },
        ports: crate::addr_pairs::PortPair { src: key.server_port, dst: key.client_port },
        seq_num: info.seq_num,
        ack_num: info.ack_num,
        offset_bytes: super::TCP_HDR_MIN_LEN,
        flags: info.flags,
        window: 0xFFFF,
        payload: info.payload,
    }
}

/// Actively closes `conn` at `now` if it is ESTABLISHED (see `close_conn`), returning the FIN-ACK
/// sent.
fn close_one(conn: &mut ConnState, now: u64) -> (r: Option<SendInfo>)
    requires
        old(conn).wf(),
    ensures
        final(conn).wf(),
        final(conn)@ == close_conn(old(conn)@, now),
        (old(conn)@.tcp_state is Established) == (r is Some),
        r matches Some(info) ==> info@ == fin_info(old(conn)@),
{
    match conn.tcp_state {
        TcpState::Established(ws) => {
            let info = SendInfo {
                seq_num: conn.snd_nxt,
                ack_num: conn.rcv_nxt,
                flags: TcpFlags::FinAck,
                payload: None,
            };
            conn.tcp_state = TcpState::FinWait1(ws);
            conn.snd_nxt = conn.snd_nxt.add(SeqOffset { value: 1 });
            let ghost before = conn.pending@.map_values(|p: PendingSegment| p@);
            conn.pending.push(PendingSegment::new(info.clone(), now));
            assert(conn.pending@.map_values(|p: PendingSegment| p@) =~= before.push(
                PendingView { info: info@, last_sent: now, retries: 0 },
            ));
            Some(info)
        },
        _ => None,
    }
}

impl TcpConnections {
    /// Actively closes every ESTABLISHED connection at `now` (see `close_conn`), returning the
    /// FIN-ACKs to send, in table order.
    pub fn close_established(&mut self, now: u64) -> (r: Vec<TcpSegment>)
        requires
            old(self).wf(),
        ensures
            final(self).wf(),
            final(self).rto == old(self).rto,
            final(self).max_retries == old(self).max_retries,
            final(self).table() == close_table(old(self).table(), now),
            segs_fields(r@) == closing_segments(old(self).table()),
    {
        let ghost t = self.table();
        let mut out: Vec<TcpSegment> = Vec::new();
        let mut i: usize = 0;
        while i < self.entries.len()
            invariant
                self.entries@.len() == t.len(),
                self.rto == old(self).rto,
                self.max_retries == old(self).max_retries,
                t == old(self).table(),
                keys_distinct(t),
                i <= t.len(),
                forall|j: int| 0 <= j < i ==> #[trigger] self.table()[j] == (t[j].0, close_conn(t[j].1, now)),
                forall|j: int| i <= j < t.len() ==> #[trigger] self.table()[j] == t[j],
                forall|j: int| 0 <= j < self.entries@.len() ==> (#[trigger] self.entries@[j]).1.wf(),
                segs_fields(out@) == closing_segments(t.take(i as int)),
            decreases t.len() - i,
        {
            let ghost before = self.table();
            let ghost before_entries = self.entries@;
            let (k, mut conn) = self.entries.remove(i);
            assert(before[i as int] == entry_view((k, conn)));
            assert(conn.wf()) by {
                assert(before_entries[i as int].1.wf());
            }
            let sent = close_one(&mut conn, now);
            let ghost cv = conn@;
            self.entries.insert(i, (k, conn));
            assert(self.table() =~= before.update(i as int, (k, cv)));
            assert(t.take(i + 1).drop_last() =~= t.take(i as int));
            assert(t.take(i + 1).last() == t[i as int]);
            match sent {
                Some(info) => {
                    let ghost o = out@;
                    out.push(reply_segment(k, info));
                    assert(segs_fields(out@) =~= segs_fields(o).push(reply_fields(k, fin_info(t[i as int].1))));
                },
                None => {},
            }
            assert forall|j: int| 0 <= j < self.entries@.len() implies (#[trigger] self.entries@[j]).1.wf() by {
                if j != i {
                    assert(self.entries@[j] == before_entries[j]);
                }
            }
            i = i + 1;
        }
        assert(t.take(t.len() as int) =~= t);
        assert(self.table() =~= close_table(t, now));
        assert forall|a: int, b: int|
            0 <= a < self.table().len() && 0 <= b < self.table().len() && a != b
                implies self.table()[a].0 != self.table()[b].0 by {
            assert(self.table()[a].0 == t[a].0);
            assert(self.table()[b].0 == t[b].0);
        }
        out
    }

    /// Whether any connection is in the middle of closing (see `is_closing`).
    pub fn closing_in_progress(&self) -> (r: bool)
        ensures
            r == exists|i: int| 0 <= i < self.table().len() && is_closing(#[trigger] self.table()[i].1.tcp_state),
    {
        let mut i: usize = 0;
        while i < self.entries.len()
            invariant
                i <= self.entries@.len(),
                forall|j: int| 0 <= j < i ==> !is_closing(#[trigger] self.table()[j].1.tcp_state),
            decreases self.entries@.len() - i,
        {
            let closing = match self.entries[i].1.tcp_state {
                TcpState::SynReceived | TcpState::Established(_) => false,
                _ => true,
            };
            assert(self.table()[i as int] == entry_view(self.entries@[i as int]));
            if closing {
                assert(is_closing(self.table()[i as int].1.tcp_state));
                return true;
            }
            i = i + 1;
        }
        false
    }
}


/// `initial` doubled `n` times.
pub open spec fn backoff(initial: int, n: nat) -> int
    decreases n,
{
    if n == 0 {
        initial
    } else {
        2 * backoff(initial, (n - 1) as nat)
    }
}

/// The retransmission timeout after `retries` retransmissions: the initial timeout doubled once
/// per retransmission (binary exponential backoff), capped at the maximum and then raised to the
/// minimum.
pub open spec fn rto_of(cfg: RtoConfig, retries: u8) -> int {
    let raw = backoff(cfg.initial as int, retries as nat);
    let capped = if raw > cfg.max {
        cfg.max as int
    } else {
        raw
    };
    if capped < cfg.min {
        cfg.min as int
    } else {
        capped
    }
}

/// When the pending segment `p` is next due for retransmission: one timeout after it was last
/// sent, or the end of time if that lies beyond it.
pub open spec fn deadline_of(p: PendingView, cfg: RtoConfig) -> int {
    let d = p.last_sent + rto_of(cfg, p.retries);
    if d > u64::MAX {
        u64::MAX as int
    } else {
        d
    }
}

/// Whether `p` is due for retransmission at `now`.
pub open spec fn is_due(p: PendingView, cfg: RtoConfig, now: u64) -> bool {
    deadline_of(p, cfg) <= now
}

/// Whether retransmitting `c` at `now` gives up on it: one of its due segments was already
/// retransmitted `max_retries` times.
pub open spec fn gives_up(c: ConnView, cfg: RtoConfig, max_retries: u8, now: u64) -> bool {
    exists|j: int|
        0 <= j < c.pending.len() && is_due(#[trigger] c.pending[j], cfg, now) && c.pending[j].retries
            >= max_retries
}

/// `p` after retransmission at `now`, if due: sent again now, one more retry counted.
pub open spec fn resend(p: PendingView, cfg: RtoConfig, now: u64) -> PendingView {
    if is_due(p, cfg, now) {
        PendingView { info: p.info, last_sent: now, retries: (p.retries + 1) as u8 }
    } else {
        p
    }
}

/// The segments of `ps` that are due at `now`, in order.
pub open spec fn due_infos(ps: Seq<PendingView>, cfg: RtoConfig, now: u64) -> Seq<SendInfoView>
    decreases ps.len(),
{
    if ps.len() == 0 {
        Seq::empty()
    } else {
        let rest = due_infos(ps.drop_last(), cfg, now);
        if is_due(ps.last(), cfg, now) {
            rest.push(ps.last().info)
        } else {
            rest
        }
    }
}

/// `c` after retransmitting its due segments at `now`.
pub open spec fn resend_conn(c: ConnView, cfg: RtoConfig, now: u64) -> ConnView {
    ConnView { pending: c.pending.map_values(|p: PendingView| resend(p, cfg, now)), ..c }
}

/// The table after a retransmission round at `now`, and the segments sent, in table order: a
/// connection that gives up (see `gives_up`) is dropped without sending anything; every other
/// connection resends each of its due segments unchanged.
pub open spec fn retransmit_spec(t: TableView, cfg: RtoConfig, max_retries: u8, now: u64) -> (TableView, Seq<TcpFields>)
    decreases t.len(),
{
    if t.len() == 0 {
        (Seq::empty(), Seq::empty())
    } else {
        let (rest_t, rest_s) = retransmit_spec(t.drop_last(), cfg, max_retries, now);
        let (k, c) = t.last();
        if gives_up(c, cfg, max_retries, now) {
            (rest_t, rest_s)
        } else {
            (
                rest_t.push((k, resend_conn(c, cfg, now))),
                rest_s + due_infos(c.pending, cfg, now).map_values(|i: SendInfoView| reply_fields(k, i)),
            )
        }
    }
}

/// The earlier of two optional instants.
pub open spec fn earlier(a: Option<int>, b: Option<int>) -> Option<int> {
    match (a, b) {
        (None, _) => b,
        (_, None) => a,
        (Some(x), Some(y)) => Some(if x <= y { x } else { y }),
    }
}

/// The earliest deadline among the pending segments `ps`, if any.
pub open spec fn pending_min_deadline(ps: Seq<PendingView>, cfg: RtoConfig) -> Option<int>
    decreases ps.len(),
{
    if ps.len() == 0 {
        None
    } else {
        earlier(pending_min_deadline(ps.drop_last(), cfg), Some(deadline_of(ps.last(), cfg)))
    }
}

/// The earliest deadline among the pending segments of all connections, if any.
pub open spec fn table_min_deadline(t: TableView, cfg: RtoConfig) -> Option<int>
    decreases t.len(),
{
    if t.len() == 0 {
        None
    } else {
        earlier(table_min_deadline(t.drop_last(), cfg), pending_min_deadline(t.last().1.pending, cfg))
    }
}

proof fn lemma_backoff_nonneg(initial: int, n: nat)
    requires
        initial >= 0,
    ensures
        backoff(initial, n) >= 0,
    decreases n,
{
    if n > 0 {
        lemma_backoff_nonneg(initial, (n - 1) as nat);
    }
}

/// The retransmission timeout after `retries` retransmissions (see `rto_of`).
pub fn rto_for(cfg: RtoConfig, retries: u8) -> (r: u64)
    ensures
        r == rto_of(cfg, retries),
{
    // Double with saturation: once the true value exceeds u64::MAX it exceeds the cap anyway
    let mut t: u64 = cfg.initial;
    let mut n: u8 = 0;
    while n < retries
        invariant
            n <= retries,
            t == (if backoff(cfg.initial as int, n as nat) > u64::MAX {
                u64::MAX as int
            } else {
                backoff(cfg.initial as int, n as nat)
            }),
        decreases retries - n,
    {
        proof {
            lemma_backoff_nonneg(cfg.initial as int, n as nat);
            assert(backoff(cfg.initial as int, (n + 1) as nat) == 2 * backoff(cfg.initial as int, n as nat));
        }
        t = if t > u64::MAX / 2 {
            u64::MAX
        } else {
            t * 2
        };
        n = n + 1;
    }
    let capped = if t > cfg.max {
        cfg.max
    } else {
        t
    };
    if capped < cfg.min {
        cfg.min
    } else {
        capped
    }
}

/// When `p` is next due for retransmission (see `deadline_of`).
fn deadline_for(p: &PendingSegment, cfg: RtoConfig) -> (r: u64)
    ensures
        r == deadline_of(p@, cfg),
{
    p.last_sent.saturating_add(rto_for(cfg, p.retries))
}

/// Whether retransmitting `conn` at `now` gives up on it (see `gives_up`).
fn conn_gives_up(conn: &ConnState, cfg: RtoConfig, max_retries: u8, now: u64) -> (r: bool)
    ensures
        r == gives_up(conn@, cfg, max_retries, now),
{
    let ghost ps = conn@.pending;
    let mut j: usize = 0;
    while j < conn.pending.len()
        invariant
            j <= conn.pending@.len(),
            ps == conn.pending@.map_values(|p: PendingSegment| p@),
            forall|k: int|
                0 <= k < j ==> !(is_due(#[trigger] ps[k], cfg, now) && ps[k].retries >= max_retries),
        decreases conn.pending@.len() - j,
    {
        let p = &conn.pending[j];
        assert(ps[j as int] == p@);
        if deadline_for(p, cfg) <= now && p.retries >= max_retries {
            assert(is_due(ps[j as int], cfg, now) && ps[j as int].retries >= max_retries);
            return true;
        }
        j = j + 1;
    }
    false
}

/// Retransmits the due segments of `conn` (on the connection `key`) at `now`, appending them to
/// `out` in order and recording each as sent again now with one more retry.
fn resend_due(
    conn: &mut ConnState,
    key: ConnKey,
    cfg: RtoConfig,
    max_retries: u8,
    now: u64,
    out: &mut Vec<TcpSegment>,
)
    requires
        old(conn).wf(),
        !gives_up(old(conn)@, cfg, max_retries, now),
    ensures
        final(conn).wf(),
        final(conn)@ == resend_conn(old(conn)@, cfg, now),
        segs_fields(final(out)@) == segs_fields(old(out)@) + due_infos(old(conn)@.pending, cfg, now).map_values(
            |i: SendInfoView| reply_fields(key, i),
        ),
{
    let ghost ps = conn@.pending;
    let ghost out0 = segs_fields(out@);
    let mut updated: Vec<PendingSegment> = Vec::new();
    let mut j: usize = 0;
    while j < conn.pending.len()
        invariant
            j <= conn.pending@.len(),
            conn@ == old(conn)@,
            conn.reassembly == old(conn).reassembly,
            ps == old(conn)@.pending,
            ps == conn.pending@.map_values(|p: PendingSegment| p@),
            !gives_up(old(conn)@, cfg, max_retries, now),
            updated@.map_values(|p: PendingSegment| p@) == ps.take(j as int).map_values(
                |p: PendingView| resend(p, cfg, now),
            ),
            segs_fields(out@) == out0 + due_infos(ps.take(j as int), cfg, now).map_values(
                |i: SendInfoView| reply_fields(key, i),
            ),
        decreases conn.pending@.len() - j,
    {
        let p = &conn.pending[j];
        assert(ps[j as int] == p@);
        assert(ps.take(j + 1).drop_last() =~= ps.take(j as int));
        assert(ps.take(j + 1).last() == ps[j as int]);
        let ghost before_updated = updated@.map_values(|p: PendingSegment| p@);
        let ghost before_out = segs_fields(out@);
        if deadline_for(p, cfg) <= now {
            assert(!(is_due(ps[j as int], cfg, now) && ps[j as int].retries >= max_retries));
            let info = p.send_info.clone();
            let again = PendingSegment { send_info: p.send_info.clone(), last_sent: now, retries: p.retries + 1 };
            updated.push(again);
            out.push(reply_segment(key, info));
            assert(segs_fields(out@) =~= before_out.push(reply_fields(key, ps[j as int].info)));
        } else {
            let same = PendingSegment { send_info: p.send_info.clone(), last_sent: p.last_sent, retries: p.retries };
            updated.push(same);
        }
        assert(updated@.map_values(|p: PendingSegment| p@) =~= before_updated.push(resend(ps[j as int], cfg, now)));
        assert(ps.take(j + 1).map_values(|p: PendingView| resend(p, cfg, now)) =~= ps.take(j as int).map_values(
            |p: PendingView| resend(p, cfg, now),
        ).push(resend(ps[j as int], cfg, now)));
        assert(due_infos(ps.take(j + 1), cfg, now).map_values(|i: SendInfoView| reply_fields(key, i))
            =~= if is_due(ps[j as int], cfg, now) {
            due_infos(ps.take(j as int), cfg, now).map_values(|i: SendInfoView| reply_fields(key, i)).push(
                reply_fields(key, ps[j as int].info),
            )
        } else {
            due_infos(ps.take(j as int), cfg, now).map_values(|i: SendInfoView| reply_fields(key, i))
        });
        j = j + 1;
    }
    assert(ps.take(ps.len() as int) =~= ps);
    conn.pending = updated;
    assert(conn@ =~= resend_conn(old(conn)@, cfg, now));
}


/// Every key left after a retransmission round was in the table before, and no key occurs twice.
proof fn lemma_retransmit_keys(t: TableView, cfg: RtoConfig, max_retries: u8, now: u64)
    ensures
        forall|a: int|
            0 <= a < retransmit_spec(t, cfg, max_retries, now).0.len() ==> has_key(
                t,
                #[trigger] retransmit_spec(t, cfg, max_retries, now).0[a].0,
            ),
        keys_distinct(t) ==> keys_distinct(retransmit_spec(t, cfg, max_retries, now).0),
    decreases t.len(),
{
    if t.len() > 0 {
        let t0 = t.drop_last();
        lemma_retransmit_keys(t0, cfg, max_retries, now);
        let r0 = retransmit_spec(t0, cfg, max_retries, now).0;
        let r = retransmit_spec(t, cfg, max_retries, now).0;
        assert forall|a: int| 0 <= a < r.len() implies has_key(t, #[trigger] r[a].0) by {
            if a < r0.len() {
                assert(r[a] == r0[a]);
                assert(has_key(t0, r0[a].0));
                let j = choose|j: int| 0 <= j < t0.len() && #[trigger] t0[j].0 == r0[a].0;
                assert(t[j].0 == r[a].0);
            } else {
                assert(t[t.len() - 1].0 == r[a].0);
            }
        }
        if keys_distinct(t) {
            assert(keys_distinct(t0));
            assert forall|a: int, b: int|
                0 <= a < r.len() && 0 <= b < r.len() && a != b implies r[a].0 != r[b].0 by {
                if a < r0.len() && b < r0.len() {
                    assert(r[a] == r0[a] && r[b] == r0[b]);
                } else if a < r0.len() {
                    assert(r[a] == r0[a]);
                    assert(has_key(t0, r0[a].0));
                    let j = choose|j: int| 0 <= j < t0.len() && #[trigger] t0[j].0 == r0[a].0;
                    assert(t[j].0 != t[t.len() - 1].0);
                } else if b < r0.len() {
                    assert(r[b] == r0[b]);
                    assert(has_key(t0, r0[b].0));
                    let j = choose|j: int| 0 <= j < t0.len() && #[trigger] t0[j].0 == r0[b].0;
                    assert(t[j].0 != t[t.len() - 1].0);
                }
            }
        }
    }
}

/// The earliest deadline among the pending segments of `conn` (see `pending_min_deadline`).
fn conn_min_deadline(conn: &ConnState, cfg: RtoConfig) -> (r: Option<u64>)
    ensures
        pending_min_deadline(conn@.pending, cfg) == (match r {
            None => None::<int>,
            Some(d) => Some(d as int),
        }),
{
    let ghost ps = conn@.pending;
    let mut best: Option<u64> = None;
    let mut j: usize = 0;
    while j < conn.pending.len()
        invariant
            j <= conn.pending@.len(),
            ps == conn.pending@.map_values(|p: PendingSegment| p@),
            pending_min_deadline(ps.take(j as int), cfg) == (match best {
                None => None::<int>,
                Some(d) => Some(d as int),
            }),
        decreases conn.pending@.len() - j,
    {
        assert(ps[j as int] == conn.pending@[j as int]@);
        assert(ps.take(j + 1).drop_last() =~= ps.take(j as int));
        assert(ps.take(j + 1).last() == ps[j as int]);
        let d = deadline_for(&conn.pending[j], cfg);
        best = match best {
            None => Some(d),
            Some(b) => Some(if b <= d { b } else { d }),
        };
        j = j + 1;
    }
    assert(ps.take(ps.len() as int) =~= ps);
    best
}

impl TcpConnections {
    /// Runs a retransmission round at `now` (see `retransmit_spec`): returns every segment due
    /// for retransmission, in table order, recording each as sent again; a connection with a due
    /// segment that has exhausted its retries is dropped instead.
    pub fn make_retransmissions(&mut self, now: u64) -> (r: Vec<TcpSegment>)
        requires
            old(self).wf(),
        ensures
            final(self).wf(),
            final(self).rto == old(self).rto,
            final(self).max_retries == old(self).max_retries,
            (final(self).table(), segs_fields(r@)) == retransmit_spec(
                old(self).table(),
                old(self).rto,
                old(self).max_retries,
                now,
            ),
    {
        let ghost t = self.table();
        let cfg = self.rto;
        let max_retries = self.max_retries;
        let mut rest: Vec<(ConnKey, ConnState)> = Vec::new();
        std::mem::swap(&mut rest, &mut self.entries);
        let ghost orig = rest@;
        let mut out: Vec<TcpSegment> = Vec::new();
        let mut k: usize = 0;
        let n = rest.len();
        while rest.len() > 0
            invariant
                k + rest@.len() == n,
                n == t.len(),
                t == orig.map_values(|e: (ConnKey, ConnState)| entry_view(e)),
                rest@ == orig.subrange(k as int, n as int),
                forall|j: int| 0 <= j < orig.len() ==> (#[trigger] orig[j]).1.wf(),
                forall|j: int| 0 <= j < self.entries@.len() ==> (#[trigger] self.entries@[j]).1.wf(),
                self.rto == cfg,
                self.max_retries == max_retries,
                (self.table(), segs_fields(out@)) == retransmit_spec(t.take(k as int), cfg, max_retries, now),
            decreases rest@.len(),
        {
            let (key, mut conn) = rest.remove(0);
            assert(orig[k as int] == (key, conn));
            assert(t[k as int] == (key, conn@));
            assert(t.take(k + 1).drop_last() =~= t.take(k as int));
            assert(t.take(k + 1).last() == t[k as int]);
            let ghost before_t = self.table();
            if !conn_gives_up(&conn, cfg, max_retries, now) {
                resend_due(&mut conn, key, cfg, max_retries, now, &mut out);
                let ghost cv = conn@;
                self.entries.push((key, conn));
                assert(self.table() =~= before_t.push((key, cv)));
            }
            k = k + 1;
            assert(rest@ =~= orig.subrange(k as int, n as int));
        }
        assert(t.take(n as int) =~= t);
        proof {
            lemma_retransmit_keys(t, cfg, max_retries, now);
        }
        out
    }

    /// The earliest instant at which a pending segment becomes due for retransmission, or `None`
    /// if nothing is pending (see `table_min_deadline`).
    pub fn next_retransmit_deadline(&self) -> (r: Option<u64>)
        ensures
            table_min_deadline(self.table(), self.rto) == (match r {
                None => None::<int>,
                Some(d) => Some(d as int),
            }),
    {
        let ghost t = self.table();
        let mut best: Option<u64> = None;
        let mut i: usize = 0;
        while i < self.entries.len()
            invariant
                i <= t.len(),
                t == self.table(),
                table_min_deadline(t.take(i as int), self.rto) == (match best {
                    None => None::<int>,
                    Some(d) => Some(d as int),
                }),
            decreases t.len() - i,
        {
            assert(t[i as int] == entry_view(self.entries@[i as int]));
            assert(t.take(i + 1).drop_last() =~= t.take(i as int));
            assert(t.take(i + 1).last() == t[i as int]);
            let d = conn_min_deadline(&self.entries[i].1, self.rto);
            best = match (best, d) {
                (None, _) => d,
                (_, None) => best,
                (Some(a), Some(b)) => Some(if a <= b { a } else { b }),
            };
            i = i + 1;
        }
        assert(t.take(t.len() as int) =~= t);
        best
    }
}


impl Default for TcpConnections {
    /// An empty table with the default retransmission timeouts and 15 retries.
    fn default() -> (r: Self)
        ensures
            r.wf(),
            r.table() == Seq::<(ConnKey, ConnView)>::empty(),
            r.rto == (RtoConfig { initial: 1000, min: 200, max: 120_000 }),
            r.max_retries == 15,
    {
        TcpConnections::new(RtoConfig::default(), 15)
    }
}

/// The fields of an optional outgoing segment.
pub open spec fn opt_seg_fields(o: Option<TcpSegment>) -> Option<TcpFields> {
    match o {
        None => None,
        Some(s) => Some(tcp_fields(s)),
    }
}

/// The fields of the outgoing segment carrying the optional `info` on the connection `key`.
pub open spec fn opt_reply_fields(key: ConnKey, o: Option<SendInfoView>) -> Option<TcpFields> {
    match o {
        None => None,
        Some(info) => Some(reply_fields(key, info)),
    }
}

impl TcpSegment {
    /// Creates the segment replying to `self`, or `Ok(None)` for no reply, updating the connection
    /// table (see `decide_reply_spec`): the reply goes back the way `self` came, with a 20-byte
    /// header and the largest receive window. A SYN opens a connection served by `app`, with `isn`
    /// as the initial sequence number; `now` is when any segment sent is recorded as sent.
    pub fn create_reply(&self, connections: &mut TcpConnections, app: ServerApp, isn: u32, now: u64) -> (r: Result<Option<TcpSegment>, StackError>)
        requires
            old(connections).wf(),
        ensures
            final(connections).wf(),
            final(connections).rto == old(connections).rto,
            final(connections).max_retries == old(connections).max_retries,
            r is Err ==> final(connections).table() == failed_table(old(connections).table(), tcp_fields(*self), now),
            (match r {
                Ok(o) => (decide_reply_spec(old(connections).table(), tcp_fields(*self), isn, now, app) matches Ok((reply, t2))
                    && t2 == final(connections).table()
                    && opt_seg_fields(o) == opt_reply_fields(key_of(tcp_fields(*self)), reply)),
                Err(e) => decide_reply_spec(old(connections).table(), tcp_fields(*self), isn, now, app)
                    == Err::<(Option<SendInfoView>, TableView), _>(e),
            }),
    {
        let key = ConnKey {
            client_ip: self.ip_pair.src,
            client_port: self.ports.src,
            server_ip: self.ip_pair.dst,
            server_port: self.ports.dst,
        };
        match SendInfo::decide_reply(self, connections, app, isn, now) {
            Err(e) => Err(e),
            Ok(None) => Ok(None),
            Ok(Some(info)) => Ok(Some(reply_segment(key, info))),
        }
    }
}


/// The connection the table holds under `k`, if any.
pub open spec fn entry(t: TableView, k: ConnKey) -> Option<ConnView> {
    if has_key(t, k) {
        Some(t[key_index(t, k)].1)
    } else {
        None
    }
}

/// Where keys are distinct, the position of a key is the one entry that holds it.
proof fn lemma_key_index_unique(t: TableView, k: ConnKey, j: int)
    requires
        keys_distinct(t),
        0 <= j < t.len(),
        t[j].0 == k,
    ensures
        has_key(t, k),
        key_index(t, k) == j,
{
    assert(t[j].0 == k);
}

/// What `entry` gives for every key of a table with distinct keys: the connection at the one
/// position holding it, and nothing for a key no position holds.
proof fn lemma_entry_at(t: TableView, k: ConnKey)
    requires
        keys_distinct(t),
    ensures
        forall|j: int| 0 <= j < t.len() && t[j].0 == k ==> entry(t, k) == Some(#[trigger] t[j].1),
        (forall|j: int| 0 <= j < t.len() ==> #[trigger] t[j].0 != k) ==> entry(t, k) is None,
{
    assert forall|j: int| 0 <= j < t.len() && t[j].0 == k implies entry(t, k) == Some(#[trigger] t[j].1) by {
        lemma_key_index_unique(t, k, j);
    }
    if forall|j: int| 0 <= j < t.len() ==> #[trigger] t[j].0 != k {
        if has_key(t, k) {
            let i = key_index(t, k);
            assert(t[i].0 != k);
        }
    }
}

/// Removing position `i` drops the key there and leaves every other key's connection alone.
proof fn lemma_entries_after_remove(t: TableView, i: int)
    requires
        keys_distinct(t),
        0 <= i < t.len(),
    ensures
        keys_distinct(t.remove(i)),
        entry(t.remove(i), t[i].0) is None,
        forall|k: ConnKey| k != t[i].0 ==> #[trigger] entry(t.remove(i), k) == entry(t, k),
{
    let t2 = t.remove(i);
    assert forall|a: int, b: int| 0 <= a < t2.len() && 0 <= b < t2.len() && a != b implies t2[a].0
        != t2[b].0 by {
        let a2 = if a < i { a } else { a + 1 };
        let b2 = if b < i { b } else { b + 1 };
        assert(t[a2].0 != t[b2].0);
    }
    assert forall|k: ConnKey| #![trigger entry(t2, k)] true implies (k != t[i].0 ==> entry(t2, k) == entry(t, k))
        && (k == t[i].0 ==> entry(t2, k) is None) by {
        lemma_entry_at(t, k);
        lemma_entry_at(t2, k);
        if has_key(t, k) && k != t[i].0 {
            let j = key_index(t, k);
            assert(j != i);
            let j2 = if j < i { j } else { j - 1 };
            assert(t2[j2] == t[j]);
        } else {
            assert forall|j: int| 0 <= j < t2.len() implies #[trigger] t2[j].0 != k by {
                let j2 = if j < i { j } else { j + 1 };
                assert(t2[j] == t[j2]);
                if t[j2].0 == k {
                    assert(has_key(t, k));
                    assert(t[j2].0 != t[i].0);
                }
            }
        }
    }
}

/// Replacing the connection at position `i` changes only its key's connection.
proof fn lemma_entries_after_update(t: TableView, i: int, c: ConnView)
    requires
        keys_distinct(t),
        0 <= i < t.len(),
    ensures
        keys_distinct(t.update(i, (t[i].0, c))),
        entry(t.update(i, (t[i].0, c)), t[i].0) == Some(c),
        forall|k: ConnKey| k != t[i].0 ==> #[trigger] entry(t.update(i, (t[i].0, c)), k) == entry(t, k),
{
    let t2 = t.update(i, (t[i].0, c));
    assert forall|a: int, b: int| 0 <= a < t2.len() && 0 <= b < t2.len() && a != b implies t2[a].0
        != t2[b].0 by {
        assert(t[a].0 != t[b].0);
    }
    lemma_entry_at(t2, t[i].0);
    assert(t2[i] == (t[i].0, c));
    assert(entry(t2, t[i].0) == Some(t2[i].1));
    assert forall|k: ConnKey| k != t[i].0 implies #[trigger] entry(t2, k) == entry(t, k) by {
        lemma_entry_at(t, k);
        lemma_entry_at(t2, k);
        if has_key(t, k) {
            let j = key_index(t, k);
            assert(t2[j] == t[j]);
        } else {
            assert forall|j: int| 0 <= j < t2.len() implies #[trigger] t2[j].0 != k by {
                if j != i {
                    assert(t2[j] == t[j]);
                    if t[j].0 == k {
                        assert(has_key(t, k));
                    }
                }
            }
        }
    }
}

/// Appending a connection under a new key adds only that key's connection.
proof fn lemma_entries_after_push(t: TableView, key: ConnKey, c: ConnView)
    requires
        keys_distinct(t),
        !has_key(t, key),
    ensures
        keys_distinct(t.push((key, c))),
        entry(t.push((key, c)), key) == Some(c),
        forall|k: ConnKey| k != key ==> #[trigger] entry(t.push((key, c)), k) == entry(t, k),
{
    let t2 = t.push((key, c));
    assert forall|a: int, b: int| 0 <= a < t2.len() && 0 <= b < t2.len() && a != b implies t2[a].0
        != t2[b].0 by {
        if a == t.len() {
            assert(!(t[b].0 == key));
        } else if b == t.len() {
            assert(!(t[a].0 == key));
        } else {
            assert(t[a].0 != t[b].0);
        }
    }
    lemma_entry_at(t2, key);
    assert(t2[t.len() as int] == (key, c));
    assert(entry(t2, key) == Some(t2[t.len() as int].1));
    assert forall|k: ConnKey| k != key implies #[trigger] entry(t2, k) == entry(t, k) by {
        lemma_entry_at(t, k);
        lemma_entry_at(t2, k);
        if has_key(t, k) {
            let j = key_index(t, k);
            assert(t2[j] == t[j]);
        } else {
            assert forall|j: int| 0 <= j < t2.len() implies #[trigger] t2[j].0 != k by {
                if j < t.len() {
                    assert(t2[j] == t[j]);
                    if t[j].0 == k {
                        assert(has_key(t, k));
                    }
                }
            }
        }
    }
}

/// Deciding the reply to `f` touches only the connection under `f`'s own key: every other key
/// keeps its connection (or its absence), and the keys stay distinct. Under `f`'s key, a new
/// connection (in SYN-RECEIVED, for the SYN-ACK sent) is stored only where none was and `f` is a
/// SYN; a known connection is replaced by what its state's handler decides, or removed only where
/// the handler says to remove it.
#[verifier::spinoff_prover]
pub proof fn lemma_decide_reply_touches_only_its_key(t: TableView, f: TcpFields, isn: u32, now: u64, app: ServerApp)
    requires
        keys_distinct(t),
        decide_reply_spec(t, f, isn, now, app) is Ok,
    ensures
        ({
            let t2 = decide_reply_spec(t, f, isn, now, app)->Ok_0.1;
            let key = key_of(f);
            &&& keys_distinct(t2)
            &&& forall|k: ConnKey| k != key ==> #[trigger] entry(t2, k) == entry(t, k)
            &&& entry(t2, key) == match entry(t, key) {
                None => if f.flags == TcpFlags::Syn {
                    Some(syn_received_conn(unknown_conn_reply(f, isn)->0, now, app))
                } else {
                    None
                },
                Some(c) => match handle_known(f, c, now) {
                    Ok((_, c2, remove)) => if remove {
                        None
                    } else {
                        Some(c2)
                    },
                    Err(_) => None,
                },
            }
        }),
{
    let key = key_of(f);
    lemma_entry_at(t, key);
    if has_key(t, key) {
        let i = key_index(t, key);
        assert(t[i].0 == key);
        assert(entry(t, key) == Some(t[i].1));
        if handle_known(f, t[i].1, now)->Ok_0.2 {
            lemma_entries_after_remove(t, i);
        } else {
            lemma_entries_after_update(t, i, handle_known(f, t[i].1, now)->Ok_0.1);
        }
    } else {
        assert forall|j: int| 0 <= j < t.len() implies #[trigger] t[j].0 != key by {
            if t[j].0 == key {
                assert(has_key(t, key));
            }
        }
        if f.flags == TcpFlags::Syn {
            lemma_entries_after_push(t, key, syn_received_conn(unknown_conn_reply(f, isn)->0, now, app));
        }
    }
}

/// The earliest deadline among pending segments `ps` is a deadline of one of them, is no later
/// than any of theirs, and exists exactly when something is pending.
proof fn lemma_pending_min_deadline_is_earliest(ps: Seq<PendingView>, cfg: RtoConfig)
    ensures
        (pending_min_deadline(ps, cfg) is None) == (ps.len() == 0),
        forall|j: int| 0 <= j < ps.len() ==> (pending_min_deadline(ps, cfg) matches Some(d) && d
            <= deadline_of(#[trigger] ps[j], cfg)),
        pending_min_deadline(ps, cfg) matches Some(d) ==> exists|j: int| 0 <= j < ps.len()
            && deadline_of(#[trigger] ps[j], cfg) == d,
    decreases ps.len(),
{
    if ps.len() > 0 {
        let rest = ps.drop_last();
        lemma_pending_min_deadline_is_earliest(rest, cfg);
        assert forall|j: int| 0 <= j < ps.len() implies pending_min_deadline(ps, cfg) matches Some(d)
            && d <= deadline_of(#[trigger] ps[j], cfg) by {
            if j < rest.len() {
                assert(rest[j] == ps[j]);
            }
        }
        let d = pending_min_deadline(ps, cfg)->0;
        if d == deadline_of(ps.last(), cfg) {
            assert(deadline_of(ps[ps.len() - 1], cfg) == d);
        } else {
            let j = choose|j: int| 0 <= j < rest.len() && deadline_of(#[trigger] rest[j], cfg)
                == d;
            assert(ps[j] == rest[j]);
        }
    }
}

/// The next retransmission deadline of the table is the earliest one over every pending segment
/// of every connection: no pending segment is due before it, it is the deadline of one of them,
/// and there is none exactly when nothing is pending anywhere.
pub proof fn lemma_next_deadline_is_the_earliest(t: TableView, cfg: RtoConfig)
    ensures
        (table_min_deadline(t, cfg) is None) == (forall|i: int| 0 <= i < t.len() ==> (
        #[trigger] t[i]).1.pending.len() == 0),
        forall|i: int, j: int|
            0 <= i < t.len() && 0 <= j < t[i].1.pending.len() ==> (table_min_deadline(t, cfg) matches Some(d)
                && d <= deadline_of(#[trigger] t[i].1.pending[j], cfg)),
        table_min_deadline(t, cfg) matches Some(d) ==> exists|i: int, j: int|
            0 <= i < t.len() && 0 <= j < t[i].1.pending.len() && deadline_of(
                #[trigger] t[i].1.pending[j],
                cfg,
            ) == d,
    decreases t.len(),
{
    if t.len() > 0 {
        let rest = t.drop_last();
        let last = t.last().1.pending;
        lemma_next_deadline_is_the_earliest(rest, cfg);
        lemma_pending_min_deadline_is_earliest(last, cfg);
        assert forall|i: int| 0 <= i < rest.len() implies #[trigger] rest[i] == t[i] by {}
        assert((table_min_deadline(t, cfg) is None) == (forall|i: int| 0 <= i < t.len() ==> (
        #[trigger] t[i]).1.pending.len() == 0)) by {
            if table_min_deadline(t, cfg) is None {
                assert forall|i: int| 0 <= i < t.len() implies (#[trigger] t[i]).1.pending.len() == 0 by {
                    if i < rest.len() {
                        assert(rest[i] == t[i]);
                    }
                }
            } else if forall|i: int| 0 <= i < t.len() ==> (#[trigger] t[i]).1.pending.len() == 0 {
                assert(t[t.len() - 1].1.pending.len() == 0);
                assert forall|i: int| 0 <= i < rest.len() implies (#[trigger] rest[i]).1.pending.len() == 0 by {
                    assert(rest[i] == t[i]);
                }
            }
        }
        assert forall|i: int, j: int|
            0 <= i < t.len() && 0 <= j < t[i].1.pending.len() implies table_min_deadline(t, cfg) matches Some(d)
                && d <= deadline_of(#[trigger] t[i].1.pending[j], cfg) by {
            if i < rest.len() {
                assert(rest[i] == t[i]);
                assert(rest[i].1.pending[j] == t[i].1.pending[j]);
            } else {
                assert(last[j] == t[i].1.pending[j]);
            }
        }
        if table_min_deadline(t, cfg) is Some {
            let d = table_min_deadline(t, cfg)->0;
            if pending_min_deadline(last, cfg) == Some(d) {
                let j = choose|j: int| 0 <= j < last.len() && deadline_of(#[trigger] last[j], cfg) == d;
                assert(t[t.len() - 1].1.pending[j] == last[j]);
            } else {
                let (i, j) = choose|i: int, j: int|
                    0 <= i < rest.len() && 0 <= j < rest[i].1.pending.len() && deadline_of(
                        #[trigger] rest[i].1.pending[j],
                        cfg,
                    ) == d;
                assert(t[i].1.pending[j] == rest[i].1.pending[j]);
            }
        }
    }
}

/// Draining is complete only when nothing is mid-close: a table in which no connection is closing
/// holds only connections in SYN-RECEIVED or ESTABLISHED, so every connection that sent or got a
/// FIN (FIN-WAIT-1, FIN-WAIT-2, CLOSE-WAIT, CLOSING, LAST-ACK) keeps the server waiting until it is
/// removed.
pub proof fn lemma_nothing_closing_means_none_half_closed(t: TableView)
    requires
        !(exists|i: int| 0 <= i < t.len() && is_closing(#[trigger] t[i].1.tcp_state)),
    ensures
        forall|i: int|
            0 <= i < t.len() ==> (#[trigger] t[i]).1.tcp_state is SynReceived || t[i].1.tcp_state is Established,
{
    assert forall|i: int| 0 <= i < t.len() implies (#[trigger] t[i]).1.tcp_state is SynReceived
        || t[i].1.tcp_state is Established by {
        assert(!is_closing(t[i].1.tcp_state));
    }
}

/// A RST is never answered with a RST (RFC 9293, Section 3.10.7): whatever the table holds, a
/// segment with the RST bit gets either no reply or an ACK.
pub proof fn lemma_rst_never_answered_with_rst(t: TableView, f: TcpFields, isn: u32, now: u64, app: ServerApp)
    requires
        f.flags == TcpFlags::Rst || f.flags == TcpFlags::RstAck,
    ensures
        decide_reply_spec(t, f, isn, now, app) matches Ok((reply, _)) && (reply matches Some(info)
            ==> info.flags == TcpFlags::Ack),
{
}

/// Every retransmission timeout lies within the configured bounds (given bounds in order).
pub proof fn lemma_rto_within_bounds(cfg: RtoConfig, retries: u8)
    requires
        cfg.min <= cfg.max,
    ensures
        cfg.min <= rto_of(cfg, retries) <= cfg.max,
{
    lemma_backoff_nonneg(cfg.initial as int, retries as nat);
}

/// Binary exponential backoff: each retransmission doubles the timeout, as long as the doubled
/// value stays within the bounds.
pub proof fn lemma_rto_doubles(cfg: RtoConfig, retries: u8)
    requires
        retries < 255,
        cfg.min <= backoff(cfg.initial as int, retries as nat),
        backoff(cfg.initial as int, (retries + 1) as nat) <= cfg.max,
    ensures
        rto_of(cfg, (retries + 1) as u8) == 2 * rto_of(cfg, retries),
{
    lemma_backoff_nonneg(cfg.initial as int, retries as nat);
    assert(backoff(cfg.initial as int, (retries + 1) as nat) == 2 * backoff(cfg.initial as int, retries as nat));
}

} // verus!
