use vstd::prelude::*;

verus! {

/// The number of distinct TCP sequence numbers.
pub open spec fn seq_modulus() -> int {
    0x1_0000_0000
}

/// Half of the sequence number space. A point precedes another when the distance from the second
/// to the first is at least this far around the circle.
pub open spec fn half_space() -> int {
    0x8000_0000
}

/// The distance travelled forwards around the sequence number circle from `from` to reach `to`,
/// always in `0..2^32`.
pub open spec fn seq_dist(to: u32, from: u32) -> int {
    if to >= from {
        to - from
    } else {
        to - from + seq_modulus()
    }
}

/// `p` precedes `q` in TCP sequence-number space (RFC 9293, Section 3.4).
pub open spec fn seq_precedes(p: u32, q: u32) -> bool {
    seq_dist(p, q) >= half_space()
}

/// `p` precedes or equals `q` in TCP sequence-number space.
pub open spec fn seq_precedes_or_eq(p: u32, q: u32) -> bool {
    p == q || seq_precedes(p, q)
}

/// The point `p` moved forwards by `n` sequence numbers, wrapping around.
pub open spec fn seq_add(p: u32, n: int) -> u32 {
    ((p + n) % seq_modulus()) as u32
}

/// An offset between two points in TCP sequence number space.
#[derive(Clone, Copy, Debug, PartialEq, Eq, Structural)]
pub struct SeqOffset {
    pub value: u32,
}

/// A specific point in TCP sequence number space.
#[derive(Clone, Copy, Debug, PartialEq, Eq, Structural)]
pub struct SeqPoint {
    pub value: u32,
}

impl SeqOffset {
    pub fn new(value: u32) -> (r: Self)
        ensures
            r.value == value,
    {
        SeqOffset { value }
    }

    /// Subtracts `rhs`, stopping at zero.
    pub fn saturating_sub(self, rhs: Self) -> (r: Self)
        ensures
            r.value == (if self.value >= rhs.value { self.value - rhs.value } else { 0 }),
    {
        SeqOffset { value: self.value.saturating_sub(rhs.value) }
    }
}

impl SeqPoint {
    pub fn new(value: u32) -> (r: Self)
        ensures
            r.value == value,
    {
        SeqPoint { value }
    }

    /// Returns whether `self` precedes `other` in TCP sequence-number space, accounting for
    /// wraparound (RFC 9293, Section 3.4). Not transitive.
    pub fn precedes(self, other: Self) -> (r: bool)
        ensures
            r == seq_precedes(self.value, other.value),
    {
        self.value.wrapping_sub(other.value) >= 0x8000_0000
    }

    /// Returns whether `self` precedes or equals `other` in TCP sequence-number space.
    pub fn precedes_or_eq(self, other: Self) -> (r: bool)
        ensures
            r == seq_precedes_or_eq(self.value, other.value),
    {
        self.value == other.value || self.precedes(other)
    }

    /// Moves `self` forwards by `rhs`, wrapping around.
    pub fn add(self, rhs: SeqOffset) -> (r: Self)
        ensures
            r.value == seq_add(self.value, rhs.value as int),
    {
        SeqPoint { value: self.value.wrapping_add(rhs.value) }
    }

    /// Returns the unsigned offset from `rhs` to `self`, or `None` if `rhs` does not precede or
    /// equal `self` in TCP sequence-number space.
    pub fn offset_past(self, rhs: Self) -> (r: Option<SeqOffset>)
        ensures
            r is Some <==> seq_precedes_or_eq(rhs.value, self.value),
            r matches Some(o) ==> o.value == seq_dist(self.value, rhs.value),
    {
        if rhs.precedes_or_eq(self) {
            Some(SeqOffset { value: self.value.wrapping_sub(rhs.value) })
        } else {
            None
        }
    }

    /// Returns whether `self` falls within the window starting at `wnd_start` (inclusive) and
    /// ending `wnd_len` sequence numbers later (exclusive), accounting for wraparound.
    pub fn in_window(self, wnd_start: Self, wnd_len: SeqOffset) -> (r: bool)
        ensures
            r == (seq_precedes_or_eq(wnd_start.value, self.value) && seq_precedes(
                self.value,
                seq_add(wnd_start.value, wnd_len.value as int),
            )),
    {
        wnd_start.precedes_or_eq(self) && self.precedes(wnd_start.add(wnd_len))
    }
}

/// A point never precedes itself.
pub proof fn lemma_precedes_irreflexive(p: u32)
    ensures
        !seq_precedes(p, p),
{
}

/// Two distinct points that are not exactly half the circle apart are ordered one way only:
/// exactly one of them precedes the other.
pub proof fn lemma_precedes_total_away_from_antipode(p: u32, q: u32)
    requires
        p != q,
        seq_dist(p, q) != half_space(),
    ensures
        seq_precedes(p, q) != seq_precedes(q, p),
{
}

/// A point and its antipode each precede the other.
pub proof fn lemma_antipodes_precede_each_other(p: u32, q: u32)
    requires
        seq_dist(p, q) == half_space(),
    ensures
        seq_precedes(p, q),
        seq_precedes(q, p),
{
}

/// Moving a point forwards by less than half the circle gives a later point, and the offset past
/// the original point is the distance moved.
pub proof fn lemma_offset_past_add(p: u32, n: u32)
    requires
        n < half_space(),
    ensures
        seq_precedes_or_eq(p, seq_add(p, n as int)),
        seq_dist(seq_add(p, n as int), p) == n,
{
}

/// For a window of length in `1..=2^31`, a point lies in the window exactly when its distance past
/// the window's start is less than the window's length.
pub proof fn lemma_in_window_iff_distance(x: u32, start: u32, len: u32)
    requires
        0 < len <= half_space(),
    ensures
        (seq_precedes_or_eq(start, x) && seq_precedes(x, seq_add(start, len as int))) <==> seq_dist(
            x,
            start,
        ) < len,
{
}

} // verus!
