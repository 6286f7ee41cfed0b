use vstd::prelude::*;

verus! {

/// The 16-bit big-endian value of the bytes `hi`, `lo`.
pub open spec fn be16(hi: u8, lo: u8) -> u16 {
    (hi * 256 + lo) as u16
}

/// The 32-bit big-endian value of the bytes `b0`, `b1`, `b2`, `b3`.
pub open spec fn be32(b0: u8, b1: u8, b2: u8, b3: u8) -> u32 {
    (((b0 * 256 + b1) * 256 + b2) * 256 + b3) as u32
}

/// The two big-endian bytes of `v`.
pub open spec fn be16_bytes(v: u16) -> Seq<u8> {
    seq![(v / 256) as u8, (v % 256) as u8]
}

/// The four big-endian bytes of `v`.
pub open spec fn be32_bytes(v: u32) -> Seq<u8> {
    seq![(v / 0x100_0000) as u8, (v / 0x1_0000 % 256) as u8, (v / 256 % 256) as u8, (v % 256) as u8]
}

/// Reading back the two big-endian bytes of a value gives the value.
pub proof fn lemma_be16_roundtrip(v: u16)
    ensures
        be16(be16_bytes(v)[0], be16_bytes(v)[1]) == v,
{
}

/// Reading back the four big-endian bytes of a value gives the value.
pub proof fn lemma_be32_roundtrip(v: u32)
    ensures
        be32(be32_bytes(v)[0], be32_bytes(v)[1], be32_bytes(v)[2], be32_bytes(v)[3]) == v,
{
    assert((((v / 0x100_0000) * 256 + v / 0x1_0000 % 256) * 256 + v / 256 % 256) * 256 + v % 256
        == v) by (bit_vector);
}

/// Reads the 16-bit big-endian value at byte `i` of `data`.
pub fn read_be16(data: &[u8], i: usize) -> (v: u16)
    requires
        i + 1 < data@.len(),
    ensures
        v == be16(data@[i as int], data@[i + 1]),
{
    (data[i] as u16) * 256 + data[i + 1] as u16
}

/// Reads the 32-bit big-endian value at byte `i` of `data`.
pub fn read_be32(data: &[u8], i: usize) -> (v: u32)
    requires
        i + 3 < data@.len(),
    ensures
        v == be32(data@[i as int], data@[i + 1], data@[i + 2], data@[i + 3]),
{
    let b0 = data[i] as u32;
    let b1 = data[i + 1] as u32;
    let b2 = data[i + 2] as u32;
    let b3 = data[i + 3] as u32;
    assert(((b0 * 256 + b1) * 256 + b2) * 256 + b3 <= 0xFFFF_FFFF) by (nonlinear_arith)
        requires
            b0 <= 255,
            b1 <= 255,
            b2 <= 255,
            b3 <= 255,
    ;
    ((b0 * 256 + b1) * 256 + b2) * 256 + b3
}

/// Writes `v` big-endian into `buf` at byte `i`.
pub fn write_be16(buf: &mut [u8], i: usize, v: u16)
    requires
        i + 1 < old(buf)@.len(),
    ensures
        final(buf)@ == old(buf)@.update(i as int, be16_bytes(v)[0]).update(i + 1, be16_bytes(v)[1]),
{
    buf[i] = (v / 256) as u8;
    buf[i + 1] = (v % 256) as u8;
}

/// Writes `v` big-endian into `buf` at byte `i`.
pub fn write_be32(buf: &mut [u8], i: usize, v: u32)
    requires
        i + 3 < old(buf)@.len(),
    ensures
        final(buf)@ == old(buf)@.update(i as int, be32_bytes(v)[0]).update(i + 1, be32_bytes(v)[1]).update(
            i + 2,
            be32_bytes(v)[2],
        ).update(i + 3, be32_bytes(v)[3]),
{
    buf[i] = (v / 0x100_0000) as u8;
    buf[i + 1] = (v / 0x1_0000 % 256) as u8;
    buf[i + 2] = (v / 256 % 256) as u8;
    buf[i + 3] = (v % 256) as u8;
}

/// `n` as a `u16`, for `n` in range.
pub open spec fn spec_u16(n: int) -> u16 {
    n as u16
}

/// Converts a length known to fit into a `u16`.
pub fn usize_to_u16(n: usize) -> (r: u16)
    requires
        n <= 0xFFFF,
    ensures
        r == n,
{
    n as u16
}

/// Appends the four big-endian bytes of `v` to `buf`.
pub fn push_be32(buf: &mut Vec<u8>, v: u32)
    ensures
        final(buf)@ == old(buf)@ + be32_bytes(v),
{
    buf.push((v / 0x100_0000) as u8);
    buf.push((v / 0x1_0000 % 256) as u8);
    buf.push((v / 256 % 256) as u8);
    buf.push((v % 256) as u8);
    assert(final(buf)@ =~= old(buf)@ + be32_bytes(v));
}

/// Appends the two big-endian bytes of `v` to `buf`.
pub fn push_be16(buf: &mut Vec<u8>, v: u16)
    ensures
        final(buf)@ == old(buf)@ + be16_bytes(v),
{
    buf.push((v / 256) as u8);
    buf.push((v % 256) as u8);
    assert(final(buf)@ =~= old(buf)@ + be16_bytes(v));
}

/// Appends all of `src` to `buf`.
pub fn push_all(buf: &mut Vec<u8>, src: &[u8])
    ensures
        final(buf)@ == old(buf)@ + src@,
{
    let ghost start = buf@;
    let mut i: usize = 0;
    while i < src.len()
        invariant
            i <= src@.len(),
            buf@ =~= start + src@.subrange(0, i as int),
        decreases src@.len() - i,
    {
        buf.push(src[i]);
        i = i + 1;
    }
    assert(src@.subrange(0, src@.len() as int) =~= src@);
}

/// `buf` with the bytes of `src` at `start..end` (`src` covering at least that range).
pub open spec fn overwrite(buf: Seq<u8>, src: Seq<u8>, start: int, end: int) -> Seq<u8> {
    Seq::new(buf.len(), |i: int| if start <= i < end { src[i] } else { buf[i] })
}

/// Copies the bytes of `src` at `start..end` into the same places of `buf` (see `overwrite`).
pub fn copy_range(buf: &mut [u8], src: &[u8], start: usize, end: usize)
    requires
        start <= end <= src@.len(),
        end <= old(buf)@.len(),
    ensures
        final(buf)@ == overwrite(old(buf)@, src@, start as int, end as int),
{
    let ghost orig = buf@;
    let mut i: usize = start;
    while i < end
        invariant
            start <= i <= end,
            end <= src@.len(),
            end <= orig.len(),
            buf@ =~= overwrite(orig, src@, start as int, i as int),
        decreases end - i,
    {
        buf[i] = src[i];
        i = i + 1;
    }
}

/// Copies all of `src` over the start of `buf`, leaving the rest of `buf` untouched.
pub fn copy_into(buf: &mut [u8], src: &[u8])
    requires
        src@.len() <= old(buf)@.len(),
    ensures
        final(buf)@ == src@ + old(buf)@.subrange(src@.len() as int, old(buf)@.len() as int),
{
    let ghost start = buf@;
    let mut i: usize = 0;
    while i < src.len()
        invariant
            i <= src@.len(),
            src@.len() <= start.len(),
            buf@.len() == start.len(),
            buf@ =~= src@.subrange(0, i as int) + start.subrange(i as int, start.len() as int),
        decreases src@.len() - i,
    {
        buf[i] = src[i];
        i = i + 1;
        assert(buf@ =~= src@.subrange(0, i as int) + start.subrange(i as int, start.len() as int));
    }
    assert(src@.subrange(0, src@.len() as int) =~= src@);
}


/// The bytes of `data` from `start` to its end, as a new vector.
pub fn tail_from(data: &[u8], start: usize) -> (r: Vec<u8>)
    requires
        start <= data@.len(),
    ensures
        r@ == data@.subrange(start as int, data@.len() as int),
{
    let mut r: Vec<u8> = Vec::new();
    let mut i = start;
    while i < data.len()
        invariant
            start <= i <= data@.len(),
            r@ =~= data@.subrange(start as int, i as int),
        decreases data@.len() - i,
    {
        r.push(data[i]);
        i = i + 1;
    }
    r
}

/// The bytes of `data` from `start` up to `end`, as a new vector.
pub fn range_of(data: &[u8], start: usize, end: usize) -> (r: Vec<u8>)
    requires
        start <= end <= data@.len(),
    ensures
        r@ == data@.subrange(start as int, end as int),
{
    let mut r: Vec<u8> = Vec::new();
    let mut i = start;
    while i < end
        invariant
            start <= i <= end,
            end <= data@.len(),
            r@ =~= data@.subrange(start as int, i as int),
        decreases end - i,
    {
        r.push(data[i]);
        i = i + 1;
    }
    r
}

} // verus!
