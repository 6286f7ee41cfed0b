use super::payload::TcpPayload;
use super::seq_space::{seq_add, seq_modulus, seq_precedes_or_eq, SeqOffset, SeqPoint};
use vstd::prelude::*;

verus! {

/// A buffered segment as plain values: its starting sequence number and its bytes.
pub type SegmentView = (u32, Seq<u8>);

/// One pass over the buffered segments in order, as the receiver sweeps them against `rcv_nxt`:
/// every segment starting at or before `rcv_nxt` is pruned until one starting exactly at
/// `rcv_nxt` is found, which is taken out and returned; segments after it are left as they are.
/// Without such a segment, every segment starting at or before `rcv_nxt` is pruned.
pub open spec fn prune_pass(segs: Seq<SegmentView>, rcv_nxt: u32) -> (Seq<SegmentView>, Option<Seq<u8>>)
    decreases segs.len(),
{
    if segs.len() == 0 {
        (segs, None)
    } else {
        let (start, bytes) = segs[0];
        if seq_precedes_or_eq(start, rcv_nxt) {
            if start == rcv_nxt {
                (segs.drop_first(), Some(bytes))
            } else {
                prune_pass(segs.drop_first(), rcv_nxt)
            }
        } else {
            let (rest, found) = prune_pass(segs.drop_first(), rcv_nxt);
            (seq![segs[0]] + rest, found)
        }
    }
}

/// A pass never adds segments, and one that finds a contiguous segment removes at least it.
pub proof fn lemma_prune_pass_shrinks(segs: Seq<SegmentView>, rcv_nxt: u32)
    ensures
        prune_pass(segs, rcv_nxt).0.len() <= segs.len(),
        prune_pass(segs, rcv_nxt).1 is Some ==> prune_pass(segs, rcv_nxt).0.len() < segs.len(),
    decreases segs.len(),
{
    if segs.len() > 0 {
        lemma_prune_pass_shrinks(segs.drop_first(), rcv_nxt);
    }
}

/// A pass discards only stale segments: every buffered segment that starts after `rcv_nxt` is
/// still buffered afterwards, and nothing is buffered that was not before. It takes out a segment
/// starting at `rcv_nxt` (returning its bytes) when one is buffered, and reports none only when no
/// buffered segment starts there.
pub proof fn lemma_prune_pass_keeps_later_segments(segs: Seq<SegmentView>, rcv_nxt: u32)
    ensures
        forall|k: int|
            0 <= k < segs.len() && !seq_precedes_or_eq(segs[k].0, rcv_nxt) ==> prune_pass(
                segs,
                rcv_nxt,
            ).0.contains(#[trigger] segs[k]),
        forall|k: int|
            0 <= k < prune_pass(segs, rcv_nxt).0.len() ==> segs.contains(
                #[trigger] prune_pass(segs, rcv_nxt).0[k],
            ),
        prune_pass(segs, rcv_nxt).1 is None ==> forall|k: int|
            0 <= k < segs.len() ==> (#[trigger] segs[k]).0 != rcv_nxt,
        prune_pass(segs, rcv_nxt).1 matches Some(bytes) ==> segs.contains((rcv_nxt, bytes)),
    decreases segs.len(),
{
    if segs.len() > 0 {
        let rest = segs.drop_first();
        lemma_prune_pass_keeps_later_segments(rest, rcv_nxt);
        let (out, found) = prune_pass(segs, rcv_nxt);
        let (rout, _) = prune_pass(rest, rcv_nxt);
        assert forall|k: int| 1 <= k < segs.len() implies #[trigger] segs[k] == rest[k - 1] by {}
        assert forall|k: int|
            0 <= k < segs.len() && !seq_precedes_or_eq(segs[k].0, rcv_nxt) implies out.contains(
                #[trigger] segs[k],
            ) by {
            if k == 0 {
                assert(out[0] == segs[0]);
            } else {
                assert(rest[k - 1] == segs[k]);
                assert(rout.contains(segs[k]));
                if !seq_precedes_or_eq(segs[0].0, rcv_nxt) {
                    let m = choose|m: int| 0 <= m < rout.len() && rout[m] == segs[k];
                    assert(out[m + 1] == rout[m]);
                }
            }
        }
        assert forall|k: int| 0 <= k < out.len() implies segs.contains(#[trigger] out[k]) by {
            if seq_precedes_or_eq(segs[0].0, rcv_nxt) && segs[0].0 == rcv_nxt {
                assert(out[k] == segs[k + 1]);
            } else if seq_precedes_or_eq(segs[0].0, rcv_nxt) {
                assert(rest.contains(out[k]));
                let m = choose|m: int| 0 <= m < rest.len() && rest[m] == out[k];
                assert(segs[m + 1] == rest[m]);
            } else if k == 0 {
                assert(segs[0] == out[0]);
            } else {
                assert(out[k] == rout[k - 1]);
                assert(rest.contains(out[k]));
                let m = choose|m: int| 0 <= m < rest.len() && rest[m] == out[k];
                assert(segs[m + 1] == rest[m]);
            }
        }
        if found is None {
            assert forall|k: int| 0 <= k < segs.len() implies (#[trigger] segs[k]).0 != rcv_nxt by {
                if k > 0 {
                    assert(rest[k - 1] == segs[k]);
                }
            }
        } else if segs[0].0 == rcv_nxt {
            assert(segs[0] == (rcv_nxt, found->0));
        } else {
            let m = choose|m: int| 0 <= m < rest.len() && rest[m] == (rcv_nxt, found->0);
            assert(segs[m + 1] == rest[m]);
        }
    }
}

/// Repeats passes, advancing `rcv_nxt` past each contiguous segment found, until a pass finds
/// none. Returns the segments left buffered, the bytes delivered in order, and the advanced
/// `rcv_nxt`.
pub open spec fn drain_result(segs: Seq<SegmentView>, rcv_nxt: u32) -> (Seq<SegmentView>, Seq<u8>, u32)
    decreases segs.len(),
{
    let (rest, found) = prune_pass(segs, rcv_nxt);
    match found {
        None => (rest, Seq::empty(), rcv_nxt),
        Some(bytes) => {
            proof {
                lemma_prune_pass_shrinks(segs, rcv_nxt);
            }
            let (left, out, next) = drain_result(rest, seq_add(rcv_nxt, bytes.len() as int));
            (left, bytes + out, next)
        },
    }
}

/// What a drain delivers accounts exactly for how far RCV.NXT moves: the advanced `rcv_nxt` is the
/// old one plus the number of bytes delivered, in sequence space.
pub proof fn lemma_drain_advances_by_delivered(segs: Seq<SegmentView>, rcv_nxt: u32)
    ensures
        drain_result(segs, rcv_nxt).2 == seq_add(rcv_nxt, drain_result(segs, rcv_nxt).1.len() as int),
    decreases segs.len(),
{
    let (rest, found) = prune_pass(segs, rcv_nxt);
    match found {
        None => {
            assert(seq_add(rcv_nxt, 0) == rcv_nxt);
        },
        Some(bytes) => {
            lemma_prune_pass_shrinks(segs, rcv_nxt);
            let b = bytes.len() as int;
            let next = seq_add(rcv_nxt, b);
            lemma_drain_advances_by_delivered(rest, next);
            let o = drain_result(rest, next).1.len() as int;
            let m = seq_modulus();
            assert(((rcv_nxt + b) % m + o) % m == (rcv_nxt + b + o) % m) by {
                vstd::arithmetic::div_mod::lemma_add_mod_noop((rcv_nxt + b) % m, o, m);
                vstd::arithmetic::div_mod::lemma_mod_twice(rcv_nxt + b, m);
            }
        },
    }
}

/// Draining leaves nothing contiguous behind: once it stops, no segment still buffered starts at
/// the advanced RCV.NXT, and every segment still buffered was buffered before.
pub proof fn lemma_drain_leaves_nothing_contiguous(segs: Seq<SegmentView>, rcv_nxt: u32)
    ensures
        forall|k: int|
            0 <= k < drain_result(segs, rcv_nxt).0.len() ==> (#[trigger] drain_result(segs, rcv_nxt).0[k]).0
                != drain_result(segs, rcv_nxt).2,
        forall|k: int|
            0 <= k < drain_result(segs, rcv_nxt).0.len() ==> segs.contains(
                #[trigger] drain_result(segs, rcv_nxt).0[k],
            ),
    decreases segs.len(),
{
    let (rest, found) = prune_pass(segs, rcv_nxt);
    lemma_prune_pass_keeps_later_segments(segs, rcv_nxt);
    match found {
        None => {
            assert forall|k: int| 0 <= k < rest.len() implies (#[trigger] rest[k]).0 != rcv_nxt by {
                assert(segs.contains(rest[k]));
                let m = choose|m: int| 0 <= m < segs.len() && segs[m] == rest[k];
                assert(segs[m].0 != rcv_nxt);
            }
        },
        Some(bytes) => {
            lemma_prune_pass_shrinks(segs, rcv_nxt);
            let next = seq_add(rcv_nxt, bytes.len() as int);
            lemma_drain_leaves_nothing_contiguous(rest, next);
            let left = drain_result(rest, next).0;
            assert forall|k: int| 0 <= k < left.len() implies segs.contains(#[trigger] left[k]) by {
                assert(rest.contains(left[k]));
                let m = choose|m: int| 0 <= m < rest.len() && rest[m] == left[k];
                assert(segs.contains(rest[m]));
            }
        },
    }
}

/// The starting sequence numbers of the buffered segments are distinct.
pub open spec fn starts_distinct(segs: Seq<SegmentView>) -> bool {
    forall|i: int, j: int| 0 <= i < j < segs.len() ==> #[trigger] segs[i].0 != #[trigger] segs[j].0
}

/// Buffers segments that arrived ahead of RCV.NXT, releasing their bytes once the gap before them
/// closes.
#[derive(Debug)]
pub struct TcpReassembly {
    /// Out-of-order segments kept to be reassembled later, in arrival order. (A `Vec` rather than
    /// an ordered map because sequence space is circular, so points have no total order.)
    segments: Vec<(SeqPoint, TcpPayload)>,
    /// The sequence position one past the last byte covered by the peer's FIN, if a FIN has been
    /// seen but not yet reached by contiguous data.
    fin_seq: Option<SeqPoint>,
}

/// The bytes of a buffered segment.
pub open spec fn entry_view(e: (SeqPoint, TcpPayload)) -> SegmentView {
    (e.0.value, e.1@)
}

impl TcpReassembly {
    /// The buffered segments as plain values, in order.
    pub closed spec fn segments_view(&self) -> Seq<SegmentView> {
        self.segments@.map_values(|e: (SeqPoint, TcpPayload)| entry_view(e))
    }

    /// The recorded FIN position, if any.
    pub closed spec fn fin_view(&self) -> Option<u32> {
        match self.fin_seq {
            None => None,
            Some(p) => Some(p.value),
        }
    }

    /// Well-formedness: the buffered segments start at distinct sequence numbers.
    pub open spec fn wf(&self) -> bool {
        starts_distinct(self.segments_view())
    }

    /// An empty buffer with no FIN recorded.
    pub fn new() -> (r: Self)
        ensures
            r.segments_view() == Seq::<SegmentView>::empty(),
            r.fin_view() is None,
            r.wf(),
    {
        let r = TcpReassembly { segments: Vec::new(), fin_seq: None };
        assert(r.segments_view() =~= Seq::<SegmentView>::empty());
        r
    }

    /// The buffered segments, in order: each starting sequence number with a copy of its bytes.
    pub fn buffered(&self) -> (r: Vec<(u32, Vec<u8>)>)
        ensures
            r@.len() == self.segments_view().len(),
            forall|i: int|
                0 <= i < r@.len() ==> (#[trigger] r@[i]).0 == self.segments_view()[i].0 && r@[i].1@
                    == self.segments_view()[i].1,
    {
        let mut r: Vec<(u32, Vec<u8>)> = Vec::new();
        let mut i: usize = 0;
        while i < self.segments.len()
            invariant
                i <= self.segments@.len(),
                r@.len() == i,
                forall|k: int|
                    0 <= k < i ==> (#[trigger] r@[k]).0 == self.segments_view()[k].0 && r@[k].1@
                        == self.segments_view()[k].1,
            decreases self.segments@.len() - i,
        {
            let (seq, payload) = &self.segments[i];
            r.push((seq.value, crate::bytes::tail_from(payload.as_bytes(), 0)));
            i = i + 1;
        }
        r
    }

    /// The recorded FIN position, if any.
    pub fn fin_position(&self) -> (r: Option<u32>)
        ensures
            r == self.fin_view(),
    {
        match self.fin_seq {
            None => None,
            Some(p) => Some(p.value),
        }
    }

    /// The number of buffered segments.
    pub fn len(&self) -> (r: usize)
        ensures
            r == self.segments_view().len(),
    {
        self.segments.len()
    }

    /// Records the sequence position of the peer's FIN, i.e. one past the last byte covered by the
    /// FIN-carrying segment. If a FIN position has already been recorded, the existing one is kept.
    pub fn mark_fin(&mut self, seq: SeqPoint)
        ensures
            final(self).segments_view() == old(self).segments_view(),
            final(self).fin_view() == (match old(self).fin_view() {
                None => Some(seq.value),
                Some(f) => Some(f),
            }),
    {
        if self.fin_seq.is_none() {
            self.fin_seq = Some(seq);
        }
    }

    /// Returns whether a FIN has been recorded and `rcv_nxt` has caught up to its position.
    pub fn fin_reached(&self, rcv_nxt: SeqPoint) -> (r: bool)
        ensures
            r == (match self.fin_view() {
                None => false,
                Some(f) => seq_precedes_or_eq(f, rcv_nxt.value),
            }),
    {
        match self.fin_seq {
            None => false,
            Some(f) => f.precedes_or_eq(rcv_nxt),
        }
    }

    /// Buffers `payload` starting at `seq` for later reassembly. If a segment starting at `seq` is
    /// already buffered (e.g. because `payload` is a retransmission), the longer of the two is
    /// kept, in the existing one's place.
    pub fn insert(&mut self, seq: SeqPoint, payload: TcpPayload)
        requires
            old(self).wf(),
        ensures
            final(self).wf(),
            final(self).fin_view() == old(self).fin_view(),
            (exists|k: int|
                0 <= k < old(self).segments_view().len() && #[trigger] old(
                    self,
                ).segments_view()[k].0 == seq.value) ==> ({
                let k = choose|k: int|
                    0 <= k < old(self).segments_view().len() && #[trigger] old(
                        self,
                    ).segments_view()[k].0 == seq.value;
                final(self).segments_view() == if payload@.len() > old(
                    self,
                ).segments_view()[k].1.len() {
                    old(self).segments_view().update(k, (seq.value, payload@))
                } else {
                    old(self).segments_view()
                }
            }),
            !(exists|k: int|
                0 <= k < old(self).segments_view().len() && #[trigger] old(
                    self,
                ).segments_view()[k].0 == seq.value) ==> final(self).segments_view() == old(
                self,
            ).segments_view().push((seq.value, payload@)),
    {
        let ghost old_view = self.segments_view();
        let n = self.segments.len();
        let mut k: usize = 0;
        while k < n
            invariant
                k <= n,
                n == self.segments@.len(),
                old_view == self.segments_view(),
                old_view == old(self).segments_view(),
                starts_distinct(old_view),
                self.fin_view() == old(self).fin_view(),
                forall|j: int| 0 <= j < k ==> #[trigger] old_view[j].0 != seq.value,
            decreases n - k,
        {
            if self.segments[k].0.value == seq.value {
                assert(old_view[k as int].0 == seq.value);
                if payload.len() > self.segments[k].1.len() {
                    self.segments.set(k, (seq, payload));
                    proof {
                        assert(self.segments_view() =~= old_view.update(
                            k as int,
                            (seq.value, payload@),
                        ));
                        let c = choose|c: int|
                            0 <= c < old_view.len() && #[trigger] old_view[c].0 == seq.value;
                        assert(c == k) by {
                            if c != k as int {
                                assert(old_view[c].0 == old_view[k as int].0);
                            }
                        }
                        assert(starts_distinct(self.segments_view()));
                    }
                } else {
                    proof {
                        let c = choose|c: int|
                            0 <= c < old_view.len() && #[trigger] old_view[c].0 == seq.value;
                        assert(c == k) by {
                            if c != k as int {
                                assert(old_view[c].0 == old_view[k as int].0);
                            }
                        }
                    }
                }
                return ;
            }
            k = k + 1;
        }
        self.segments.push((seq, payload));
        proof {
            assert(self.segments_view() =~= old_view.push((seq.value, payload@)));
            assert(starts_distinct(self.segments_view()));
        }
    }

    /// Runs one pruning pass (see `prune_pass`) against `rcv_nxt`.
    fn prune_pass_exec(&mut self, rcv_nxt: SeqPoint) -> (r: Option<TcpPayload>)
        requires
            old(self).wf(),
        ensures
            final(self).wf(),
            final(self).fin_view() == old(self).fin_view(),
            ({
                let (rest, found) = prune_pass(old(self).segments_view(), rcv_nxt.value);
                &&& final(self).segments_view() == rest
                &&& match r {
                    None => found is None,
                    Some(p) => found == Some(p@),
                }
            }),
    {
        let ghost orig = self.segments_view();
        let mut j: usize = 0;
        let ghost mut kept: Seq<SegmentView> = Seq::empty();
        proof {
            assert(orig.subrange(0, orig.len() as int) =~= orig);
            let (r0, f0) = prune_pass(orig, rcv_nxt.value);
            assert(kept + r0 =~= r0);
        }
        while j < self.segments.len()
            invariant
                j <= self.segments@.len(),
                orig == old(self).segments_view(),
                self.fin_view() == old(self).fin_view(),
                self.segments_view() == kept + prune_input(orig, kept, self.segments_view(), j),
                kept.len() == j,
                kept == self.segments_view().subrange(0, j as int),
                prune_pass(orig, rcv_nxt.value) == ({
                    let (rest, found) = prune_pass(
                        self.segments_view().subrange(j as int, self.segments_view().len() as int),
                        rcv_nxt.value,
                    );
                    (kept + rest, found)
                }),
                starts_distinct(self.segments_view()),
            decreases self.segments@.len() - j,
        {
            let ghost tail = self.segments_view().subrange(j as int, self.segments_view().len() as int);
            let start = self.segments[j].0;
            proof {
                assert(tail[0] == entry_view(self.segments@[j as int]));
                assert(tail.len() > 0);
            }
            if start.precedes_or_eq(rcv_nxt) {
                let ghost before = self.segments_view();
                let (s, p) = self.segments.remove(j);
                proof {
                    assert(self.segments_view() =~= before.remove(j as int));
                    assert(tail.drop_first() =~= self.segments_view().subrange(
                        j as int,
                        self.segments_view().len() as int,
                    ));
                    assert(self.segments_view().subrange(0, j as int) =~= before.subrange(0, j as int));
                    assert(starts_distinct(self.segments_view())) by {
                        assert forall|a: int, b: int|
                            0 <= a < b < self.segments_view().len() implies #[trigger] self.segments_view()[a].0
                            != #[trigger] self.segments_view()[b].0 by {
                            let a2 = if a < j { a } else { a + 1 };
                            let b2 = if b < j { b } else { b + 1 };
                            assert(self.segments_view()[a] == before[a2]);
                            assert(self.segments_view()[b] == before[b2]);
                        }
                    }
                }
                if s.value == rcv_nxt.value {
                    proof {
                        assert(self.segments_view() =~= kept + tail.drop_first());
                        assert(prune_pass(tail, rcv_nxt.value) == (tail.drop_first(), Some(p@)));
                    }
                    return Some(p);
                }
                proof {
                    assert(prune_pass(tail, rcv_nxt.value) == prune_pass(
                        tail.drop_first(),
                        rcv_nxt.value,
                    ));
                }
            } else {
                proof {
                    assert(tail[0] == self.segments_view()[j as int]);
                    assert(seq![tail[0]] + tail.drop_first() =~= tail);
                    let (r1, f1) = prune_pass(tail.drop_first(), rcv_nxt.value);
                    assert(prune_pass(tail, rcv_nxt.value) == (seq![tail[0]] + r1, f1));
                    assert(kept.push(tail[0]) + r1 =~= kept + (seq![tail[0]] + r1));
                    kept = kept.push(tail[0]);
                    assert(kept =~= self.segments_view().subrange(0, j + 1));
                    assert(tail.drop_first() =~= self.segments_view().subrange(
                        j + 1,
                        self.segments_view().len() as int,
                    ));
                }
                j = j + 1;
            }
        }
        proof {
            assert(self.segments_view().subrange(j as int, self.segments_view().len() as int)
                =~= Seq::<SegmentView>::empty());
            assert(self.segments_view() =~= kept);
        }
        None
    }

    /// Advances `rcv_nxt` through any buffered segments that are now contiguous with it, appending
    /// their bytes to `out` in order and returning the advanced `rcv_nxt` (see `drain_result`).
    /// Segments that start before `rcv_nxt` are discarded without being appended.
    pub fn drain_contiguous(&mut self, rcv_nxt: SeqPoint, out: &mut Vec<u8>) -> (r: SeqPoint)
        requires
            old(self).wf(),
        ensures
            final(self).wf(),
            final(self).fin_view() == old(self).fin_view(),
            ({
                let (left, bytes, next) = drain_result(old(self).segments_view(), rcv_nxt.value);
                &&& final(self).segments_view() == left
                &&& final(out)@ == old(out)@ + bytes
                &&& r.value == next
            }),
    {
        let ghost start_segs = self.segments_view();
        let ghost start_out = out@;
        let mut next = rcv_nxt;
        loop
            invariant
                self.wf(),
                self.fin_view() == old(self).fin_view(),
                start_segs == old(self).segments_view(),
                start_out == old(out)@,
                ({
                    let (left, bytes, fin) = drain_result(self.segments_view(), next.value);
                    let (left0, bytes0, fin0) = drain_result(start_segs, rcv_nxt.value);
                    &&& left == left0
                    &&& fin == fin0
                    &&& start_out + bytes0 == out@ + bytes
                }),
            decreases self.segments_view().len(),
        {
            let ghost before = self.segments_view();
            proof {
                lemma_prune_pass_shrinks(before, next.value);
            }
            match self.prune_pass_exec(next) {
                None => {
                    proof {
                        assert(drain_result(before, next.value) == (
                            self.segments_view(),
                            Seq::<u8>::empty(),
                            next.value,
                        ));
                        assert(out@ + Seq::<u8>::empty() =~= out@);
                    }
                    return next;
                },
                Some(p) => {
                    proof {
                        let (l1, o1, n1) = drain_result(
                            self.segments_view(),
                            seq_add(next.value, p@.len() as int),
                        );
                        assert(drain_result(before, next.value) == (l1, p@ + o1, n1));
                    }
                    let ghost old_out = out@;
                    push_payload(out, &p);
                    let len = SeqOffset { value: p.len() as u32 };
                    next = next.add(len);
                    proof {
                        assert(old_out + (p@ + drain_result(self.segments_view(), next.value).1)
                            =~= out@ + drain_result(self.segments_view(), next.value).1);
                    }
                },
            }
        }
    }
}

/// The not-yet-swept segments, named for the loop invariant of `prune_pass_exec`.
spec fn prune_input(
    orig: Seq<SegmentView>,
    kept: Seq<SegmentView>,
    current: Seq<SegmentView>,
    j: usize,
) -> Seq<SegmentView> {
    current.subrange(j as int, current.len() as int)
}

/// Appends the bytes of `p` to `out`.
fn push_payload(out: &mut Vec<u8>, p: &TcpPayload)
    ensures
        final(out)@ == old(out)@ + p@,
{
    crate::bytes::push_all(out, p.as_bytes());
}

} // verus!
