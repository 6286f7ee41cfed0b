use vstd::arithmetic::div_mod::{
    lemma_add_mod_noop, lemma_fundamental_div_mod, lemma_fundamental_div_mod_converse,
    lemma_mod_multiples_vanish,
};
use vstd::prelude::*;

verus! {

/// The byte of `data` at `i`, or zero past its end (the padding of an odd-length input).
pub open spec fn byte_at(data: Seq<u8>, i: int) -> nat {
    if 0 <= i < data.len() {
        data[i] as nat
    } else {
        0
    }
}

/// The `k`-th 16-bit big-endian word of `data`. An odd last byte is the high byte of its word.
pub open spec fn word_at(data: Seq<u8>, k: int) -> nat {
    byte_at(data, 2 * k) * 256 + byte_at(data, 2 * k + 1)
}

/// The sum of the first `k` 16-bit words of `data`.
pub open spec fn words_sum(data: Seq<u8>, k: nat) -> nat
    decreases k,
{
    if k == 0 {
        0
    } else {
        words_sum(data, (k - 1) as nat) + word_at(data, k - 1)
    }
}

/// The number of 16-bit words that `data` covers.
pub open spec fn word_count(data: Seq<u8>) -> nat {
    ((data.len() + 1) / 2) as nat
}

/// The plain (carry-keeping) sum of all 16-bit words of `data`.
pub open spec fn word_sum(data: Seq<u8>) -> nat {
    words_sum(data, word_count(data))
}

/// Folds a sum into 16 bits with end-around carry, giving the one's complement sum: zero stays
/// zero, and any other sum becomes the unique value in `1..=0xFFFF` congruent to it modulo
/// `0xFFFF`.
pub open spec fn ones_complement_fold(s: nat) -> nat {
    if s == 0 {
        0
    } else {
        ((s - 1) as int % 65535 + 1) as nat
    }
}

/// The Internet checksum of `data` (RFC 1071): the 16-bit one's complement of the one's
/// complement sum of its 16-bit words.
pub open spec fn internet_checksum(data: Seq<u8>) -> u16 {
    (0xFFFF - ones_complement_fold(word_sum(data))) as u16
}

/// The largest number of worst case `0xFF` bytes that a `u32` accumulator with deferred carries
/// can sum before it overflows (`u32::MAX / 0xFFFF` words of two bytes).
pub const DEFERRED_CARRIES_MAX_BYTES: usize = 131_074;

/// `x * 65536 + y` and `x + y` leave the same remainder modulo `0xFFFF`.
proof fn lemma_shift16_congruent(x: int, y: int)
    ensures
        (x * 65536 + y) % 65535 == (x + y) % 65535,
{
    assert(x * 65536 + y == 65535 * x + (x + y));
    lemma_mod_multiples_vanish(x, x + y, 65535);
}

/// Adding the same value to two congruent values keeps them congruent modulo `0xFFFF`.
proof fn lemma_congruent_add(a: int, b: int, c: int)
    requires
        a % 65535 == b % 65535,
    ensures
        (a + c) % 65535 == (b + c) % 65535,
{
    lemma_add_mod_noop(a, c, 65535);
    lemma_add_mod_noop(b, c, 65535);
}

/// Adding two pairs of congruent values gives congruent sums modulo `0xFFFF`.
proof fn lemma_congruent_add_both(a: int, b: int, c: int, d: int)
    requires
        a % 65535 == b % 65535,
        c % 65535 == d % 65535,
    ensures
        (a + c) % 65535 == (b + d) % 65535,
{
    lemma_add_mod_noop(a, c, 65535);
    lemma_add_mod_noop(b, d, 65535);
}

/// The value of four 16-bit words read as one big-endian 64-bit integer.
pub open spec fn lanes_value(w0: nat, w1: nat, w2: nat, w3: nat) -> nat {
    ((w0 * 65536 + w1) * 65536 + w2) * 65536 + w3
}

/// Four 16-bit lanes read as one 64-bit integer are congruent to their sum modulo `0xFFFF`, and
/// the integer is zero exactly when all lanes are.
proof fn lemma_lanes_value(w0: nat, w1: nat, w2: nat, w3: nat)
    ensures
        lanes_value(w0, w1, w2, w3) % 65535 == (w0 + w1 + w2 + w3) as int % 65535,
        (lanes_value(w0, w1, w2, w3) == 0) == (w0 + w1 + w2 + w3 == 0),
{
    let a = w0 * 65536 + w1;
    let b = a * 65536 + w2;
    lemma_shift16_congruent(w0 as int, w1 as int);
    lemma_shift16_congruent(a as int, w2 as int);
    lemma_congruent_add(a as int, (w0 + w1) as int, w2 as int);
    lemma_shift16_congruent(b as int, w3 as int);
    lemma_congruent_add(b as int, (w0 + w1 + w2) as int, w3 as int);
    assert((lanes_value(w0, w1, w2, w3) == 0) == (w0 + w1 + w2 + w3 == 0)) by (nonlinear_arith);
}

/// One end-around-carry step keeps the value congruent modulo `0xFFFF`, keeps it zero exactly
/// when it was zero, and makes any value above `0xFFFF` strictly smaller.
proof fn lemma_fold_step(y: int)
    requires
        y >= 0,
    ensures
        (y % 65536 + y / 65536) % 65535 == y % 65535,
        (y % 65536 + y / 65536 == 0) == (y == 0),
        y > 0xFFFF ==> y % 65536 + y / 65536 < y,
        y % 65536 + y / 65536 >= 0,
{
    lemma_fundamental_div_mod(y, 65536);
    let q = y / 65536;
    let r = y % 65536;
    assert(y == q * 65536 + r);
    lemma_shift16_congruent(q, r);
    assert(0 <= r < 65536);
    assert(q >= 0) by (nonlinear_arith)
        requires
            y >= 0,
            y == q * 65536 + r,
            r < 65536,
    ;
    assert(y > 0xFFFF ==> q >= 1) by (nonlinear_arith)
        requires
            y == q * 65536 + r,
            r < 65536,
    ;
}

/// A value in `0..=0xFFFF` congruent to `s` modulo `0xFFFF`, and zero exactly when `s` is, is the
/// one's complement fold of `s`.
proof fn lemma_fold_result(x: int, s: nat)
    requires
        0 <= x <= 0xFFFF,
        x % 65535 == s as int % 65535,
        (x == 0) == (s == 0),
    ensures
        x == ones_complement_fold(s),
{
    if s != 0 {
        lemma_fundamental_div_mod(s as int, 65535);
        let q = s as int / 65535;
        let r = s as int % 65535;
        assert(0 <= r < 65535);
        if x == 65535 {
            assert(r == 0);
            assert(q >= 1) by (nonlinear_arith)
                requires
                    s as int == 65535 * q + r,
                    r == 0,
                    s >= 1,
            ;
            lemma_fundamental_div_mod_converse(s - 1, 65535, q - 1, 65534);
        } else {
            assert(x % 65535 == x);
            lemma_fundamental_div_mod_converse(s - 1, 65535, q, r - 1);
        }
    }
}

/// Words at or past the end of `data` are zero, so summing more words than `data` covers adds
/// nothing.
proof fn lemma_words_sum_past_end(data: Seq<u8>, k: nat)
    requires
        k >= word_count(data),
    ensures
        words_sum(data, k) == word_sum(data),
    decreases k,
{
    if k > word_count(data) {
        lemma_words_sum_past_end(data, (k - 1) as nat);
        assert(word_at(data, k - 1) == 0);
    }
}

/// Every 16-bit word is at most `0xFFFF`, so `k` words sum to at most `k * 0xFFFF`.
proof fn lemma_words_sum_bound(data: Seq<u8>, k: nat)
    ensures
        words_sum(data, k) <= k * 65535,
    decreases k,
{
    if k > 0 {
        lemma_words_sum_bound(data, (k - 1) as nat);
        assert(byte_at(data, 2 * (k - 1)) <= 255);
        assert(byte_at(data, 2 * (k - 1) + 1) <= 255);
    }
}

/// Replacing the bytes of word `j` changes the sum of the first `k` words (when `j < k`) by the
/// difference between the new and old word.
proof fn lemma_words_sum_update(data: Seq<u8>, j: int, hi: u8, lo: u8, k: nat)
    requires
        0 <= j,
        2 * j + 1 < data.len(),
    ensures
        words_sum(data.update(2 * j, hi).update(2 * j + 1, lo), k) == (if j < k {
            words_sum(data, k) - word_at(data, j) + hi * 256 + lo
        } else {
            words_sum(data, k) as int
        }),
    decreases k,
{
    let d2 = data.update(2 * j, hi).update(2 * j + 1, lo);
    if k > 0 {
        lemma_words_sum_update(data, j, hi, lo, (k - 1) as nat);
        if k - 1 == j {
            assert(word_at(d2, j) == hi * 256 + lo);
        } else {
            assert(word_at(d2, k - 1) == word_at(data, k - 1));
        }
    }
}

/// Reads the 16-bit big-endian word starting at byte `i` of `data`.
fn word_in_range(data: &[u8], i: usize) -> (w: u64)
    requires
        i + 1 < data@.len(),
        i % 2 == 0,
    ensures
        w == word_at(data@, i as int / 2),
        w <= 0xFFFF,
{
    (data[i] as u64) * 256 + data[i + 1] as u64
}

/// Reads the `j`-th 16-bit word of the trailing partial chunk starting at byte `start` of `data`,
/// padding missing bytes with zeros.
fn tail_word(data: &[u8], start: usize, j: usize) -> (w: u64)
    requires
        start <= data@.len(),
        data@.len() - start < 8,
        j < 4,
        start % 8 == 0,
    ensures
        w == word_at(data@, start as int / 2 + j as int),
        w <= 0xFFFF,
{
    let avail = data.len() - start;
    let hi: u64 = if 2 * j < avail {
        data[start + 2 * j] as u64
    } else {
        0
    };
    let lo: u64 = if 2 * j + 1 < avail {
        data[start + 2 * j + 1] as u64
    } else {
        0
    };
    assert(2 * (start / 2 + j) == start + 2 * j);
    hi * 256 + lo
}

/// Combines four 16-bit lanes into one 64-bit big-endian integer.
fn combine_lanes(w0: u64, w1: u64, w2: u64, w3: u64) -> (v: u64)
    requires
        w0 <= 0xFFFF,
        w1 <= 0xFFFF,
        w2 <= 0xFFFF,
        w3 <= 0xFFFF,
    ensures
        v == lanes_value(w0 as nat, w1 as nat, w2 as nat, w3 as nat),
{
    assert(((w0 * 65536 + w1) * 65536 + w2) * 65536 + w3 <= 0xFFFF_FFFF_FFFF_FFFF)
        by (nonlinear_arith)
        requires
            w0 <= 0xFFFF,
            w1 <= 0xFFFF,
            w2 <= 0xFFFF,
            w3 <= 0xFFFF,
    ;
    assert(w0 * 65536 + w1 <= 0xFFFF_FFFF) by (nonlinear_arith)
        requires
            w0 <= 0xFFFF,
            w1 <= 0xFFFF,
    ;
    assert((w0 * 65536 + w1) * 65536 + w2 <= 0xFFFF_FFFF_FFFF) by (nonlinear_arith)
        requires
            w0 * 65536 + w1 <= 0xFFFF_FFFF,
            w2 <= 0xFFFF,
    ;
    ((w0 * 65536 + w1) * 65536 + w2) * 65536 + w3
}

/// Folds a 128-bit accumulator with end-around carries until it fits in 16 bits, then returns its
/// one's complement.
fn fold_and_flip(x: u128, Ghost(s): Ghost<nat>) -> (r: u16)
    requires
        x as int % 65535 == s as int % 65535,
        (x == 0) == (s == 0),
    ensures
        r == 0xFFFF - ones_complement_fold(s),
{
    let mut y = x;
    while y > 0xFFFF
        invariant
            y as int % 65535 == s as int % 65535,
            (y == 0) == (s == 0),
        decreases y,
    {
        proof {
            lemma_fold_step(y as int);
        }
        y = y % 65536 + y / 65536;
    }
    proof {
        lemma_fold_result(y as int, s);
    }
    0xFFFF - y as u16
}

/// Computes the Internet checksum from data of arbitrary length (16-bit one's complement of the
/// one's complement sum, RFC 1071).
///
/// Sums the input as 64-bit big-endian addends (four 16-bit lanes each) in a 128-bit accumulator,
/// deferring carries between lanes; since `2^16` is congruent to one modulo `0xFFFF`, carries that
/// cross lane boundaries land in congruent positions, and the final folds give the one's complement
/// sum.
pub fn calculate(data: &[u8]) -> (r: u16)
    ensures
        r == internet_checksum(data@),
{
    let n = data.len();
    let chunks = n / 8;
    let tail_start = chunks * 8;

    // The trailing partial chunk, padded with zeros (an odd byte lands in the high byte of its
    // 16-bit lane)
    let t0 = tail_word(data, tail_start, 0);
    let t1 = tail_word(data, tail_start, 1);
    let t2 = tail_word(data, tail_start, 2);
    let t3 = tail_word(data, tail_start, 3);
    let tail = combine_lanes(t0, t1, t2, t3);
    let ghost tail_ws: nat = (t0 + t1 + t2 + t3) as nat;
    proof {
        lemma_lanes_value(t0 as nat, t1 as nat, t2 as nat, t3 as nat);
    }

    let mut acc: u128 = tail as u128;
    let mut i: usize = 0;
    while i < chunks
        invariant
            i <= chunks,
            chunks == n / 8,
            n == data@.len(),
            acc as int % 65535 == (words_sum(data@, 4 * i as nat) + tail_ws) as int % 65535,
            (acc == 0) == (words_sum(data@, 4 * i as nat) + tail_ws == 0),
            acc <= (i + 1) * 0xFFFF_FFFF_FFFF_FFFFu128,
        decreases chunks - i,
    {
        let base = i * 8;
        let w0 = word_in_range(data, base);
        let w1 = word_in_range(data, base + 2);
        let w2 = word_in_range(data, base + 4);
        let w3 = word_in_range(data, base + 6);
        let v = combine_lanes(w0, w1, w2, w3);
        let ghost prev = words_sum(data@, 4 * i as nat);
        proof {
            lemma_lanes_value(w0 as nat, w1 as nat, w2 as nat, w3 as nat);
            assert(words_sum(data@, (4 * i + 4) as nat) == prev + w0 + w1 + w2 + w3) by {
                assert(words_sum(data@, (4 * i + 1) as nat) == prev + w0);
                assert(words_sum(data@, (4 * i + 2) as nat) == prev + w0 + w1);
                assert(words_sum(data@, (4 * i + 3) as nat) == prev + w0 + w1 + w2);
            }
            lemma_congruent_add_both(
                acc as int,
                (prev + tail_ws) as int,
                v as int,
                (w0 + w1 + w2 + w3) as int,
            );
            assert(acc + v <= (i + 2) * 0xFFFF_FFFF_FFFF_FFFFu128) by (nonlinear_arith)
                requires
                    acc <= (i + 1) * 0xFFFF_FFFF_FFFF_FFFFu128,
                    v <= 0xFFFF_FFFF_FFFF_FFFFu64,
            ;
            assert((i + 2) * 0xFFFF_FFFF_FFFF_FFFFu128 < 0x1_0000_0000_0000_0000_0000_0000_0000_0000)
                by (nonlinear_arith)
                requires
                    i < chunks,
                    chunks <= 0xFFFF_FFFF_FFFF_FFFFu64,
            ;
        }
        acc = acc + v as u128;
        i = i + 1;
    }
    proof {
        let d = data@;
        let c = chunks as nat;
        assert(words_sum(d, 4 * c + 4) == words_sum(d, 4 * c) + tail_ws) by {
            assert(4 * c == tail_start / 2);
            assert(words_sum(d, 4 * c + 1) == words_sum(d, 4 * c) + t0);
            assert(words_sum(d, 4 * c + 2) == words_sum(d, 4 * c) + t0 + t1);
            assert(words_sum(d, 4 * c + 3) == words_sum(d, 4 * c) + t0 + t1 + t2);
        }
        lemma_words_sum_past_end(d, 4 * c + 4);
    }
    fold_and_flip(acc, Ghost(word_sum(data@)))
}


/// The odd trailing byte of `data` as the high byte of its 16-bit word, or zero for even lengths.
fn odd_tail_word(data: &[u8]) -> (w: u64)
    ensures
        w == word_at(data@, data@.len() as int / 2),
        w <= 0xFF00,
{
    let n = data.len();
    if n % 2 == 1 {
        assert(2 * (n as int / 2) == n - 1);
        (data[n - 1] as u64) * 256
    } else {
        0
    }
}

/// After summing the first `data.len() / 2` words and the odd-tail word, every word is covered.
proof fn lemma_pairs_then_tail_cover_all(data: Seq<u8>)
    ensures
        words_sum(data, (data.len() / 2 + 1) as nat) == word_sum(data),
{
    lemma_words_sum_past_end(data, (data.len() / 2 + 1) as nat);
}

/// Folds the high half of a 32-bit accumulator back into the low half once.
fn one_carry_fold(x: u32) -> (r: u32)
    ensures
        r as int % 65535 == x as int % 65535,
        (r == 0) == (x == 0),
        r <= 0x1_FFFE,
        x <= 0x1_FFFE ==> r <= 0xFFFF,
{
    proof {
        lemma_fold_step(x as int);
        assert(x as int / 65536 <= 0xFFFF);
        assert(x <= 0x1_FFFE ==> x as int / 65536 <= 1);
        assert(x <= 0x1_FFFE && x as int / 65536 == 1 ==> x as int % 65536 <= 0xFFFE);
    }
    x % 65536 + x / 65536
}

/// Internet checksum implementation that uses a 16-bit accumulator, detecting any overflow and
/// folding on every iteration. Correct, but does not take advantage of the deferred carries method.
///
/// Exposed only for benchmark comparison against [`calculate`]. Do not use for real checksum
/// calculation.
pub fn always_folded_cksum(data: &[u8]) -> (r: u16)
    ensures
        r == internet_checksum(data@),
{
    let pairs = data.len() / 2;
    let odd = odd_tail_word(data);
    let ghost d = data@;
    let mut sum: u16 = odd as u16;
    let mut k: usize = 0;
    while k < pairs
        invariant
            k <= pairs,
            pairs == d.len() / 2,
            pairs == data.len() / 2,
            d == data@,
            sum as int % 65535 == (words_sum(d, k as nat) + odd) as int % 65535,
            (sum == 0) == (words_sum(d, k as nat) + odd == 0),
        decreases pairs - k,
    {
        let w = word_in_range(data, 2 * k);
        let ghost s = words_sum(d, k as nat) + odd;
        let total: u32 = sum as u32 + w as u32;
        // On overflow, the carry out of bit 15 wraps around into bit 0
        sum = if total > 0xFFFF {
            (total - 0xFFFF) as u16
        } else {
            total as u16
        };
        proof {
            assert(words_sum(d, (k + 1) as nat) == words_sum(d, k as nat) + w);
            lemma_congruent_add(sum_before(total, w) as int, s as int, w as int);
            if total > 0xFFFF {
                lemma_mod_multiples_vanish(-1, total as int, 65535);
            }
        }
        k = k + 1;
    }
    proof {
        lemma_pairs_then_tail_cover_all(d);
        lemma_fold_result(sum as int, word_sum(d));
    }
    0xFFFF - sum
}

/// The accumulator value before adding `w` to reach `total`.
spec fn sum_before(total: u32, w: u64) -> int {
    total - w
}

/// Internet checksum implementation that uses a 32-bit accumulator without an overflow check.
/// Takes advantage of the deferred carries method, but produces incorrect results for inputs whose
/// word sum reaches `2^32` (more than `DEFERRED_CARRIES_MAX_BYTES` bytes of `0xFF`): it computes
/// the checksum of the word sum truncated to 32 bits.
///
/// Exposed only for benchmark comparison against [`calculate`]. Do not use for real checksum
/// calculation.
pub fn naive_wrapping_cksum(data: &[u8]) -> (r: u16)
    ensures
        r == 0xFFFF - ones_complement_fold((word_sum(data@) as int % 0x1_0000_0000) as nat),
{
    let pairs = data.len() / 2;
    let odd = odd_tail_word(data);
    let ghost d = data@;
    let mut sum: u32 = odd as u32;
    let mut k: usize = 0;
    while k < pairs
        invariant
            k <= pairs,
            pairs == d.len() / 2,
            pairs == data.len() / 2,
            d == data@,
            sum as int == (words_sum(d, k as nat) + odd) as int % 0x1_0000_0000,
        decreases pairs - k,
    {
        let w = word_in_range(data, 2 * k);
        let ghost s = words_sum(d, k as nat) + odd;
        proof {
            assert(words_sum(d, (k + 1) as nat) == words_sum(d, k as nat) + w);
            lemma_add_mod_noop(s as int, w as int, 0x1_0000_0000);
            if sum as int + w >= 0x1_0000_0000 {
                lemma_fundamental_div_mod_converse(sum + w, 0x1_0000_0000, 1, sum + w - 0x1_0000_0000);
            } else {
                lemma_fundamental_div_mod_converse(sum + w, 0x1_0000_0000, 0, sum + w);
            }
        }
        sum = sum.wrapping_add(w as u32);
        k = k + 1;
    }
    proof {
        lemma_pairs_then_tail_cover_all(d);
    }
    let once = one_carry_fold(sum);
    let twice = one_carry_fold(once);
    proof {
        lemma_fold_result(twice as int, (word_sum(d) as int % 0x1_0000_0000) as nat);
    }
    0xFFFF - twice as u16
}

/// Internet checksum implementation that uses a 32-bit accumulator with deferred carries and
/// preemptively folds whenever the accumulator could overflow on the next addition. Correct, but
/// the check incurs overhead on every iteration.
///
/// Exposed only for benchmark comparison against [`calculate`]. Do not use for real checksum
/// calculation.
pub fn range_checked_cksum(data: &[u8]) -> (r: u16)
    ensures
        r == internet_checksum(data@),
{
    // The lowest accumulator value that would overflow if `u16::MAX` was added to it
    let would_overflow: u32 = 0xFFFF_0000 + 1;
    let pairs = data.len() / 2;
    let odd = odd_tail_word(data);
    let ghost d = data@;
    let mut sum: u32 = odd as u32;
    let mut k: usize = 0;
    while k < pairs
        invariant
            k <= pairs,
            pairs == d.len() / 2,
            pairs == data.len() / 2,
            d == data@,
            would_overflow == 0xFFFF_0001,
            sum < would_overflow,
            sum as int % 65535 == (words_sum(d, k as nat) + odd) as int % 65535,
            (sum == 0) == (words_sum(d, k as nat) + odd == 0),
        decreases pairs - k,
    {
        let w = word_in_range(data, 2 * k);
        let ghost s = words_sum(d, k as nat) + odd;
        proof {
            assert(words_sum(d, (k + 1) as nat) == words_sum(d, k as nat) + w);
            lemma_congruent_add(sum as int, s as int, w as int);
        }
        let added = sum + w as u32;
        sum = if added < would_overflow {
            added
        } else {
            // Intermediate fold, which never happens for real-world input sizes such as the
            // Ethernet MTU or the largest IPv4 packet
            one_carry_fold(added)
        };
        k = k + 1;
    }
    proof {
        lemma_pairs_then_tail_cover_all(d);
    }
    let once = one_carry_fold(sum);
    let twice = one_carry_fold(once);
    proof {
        lemma_fold_result(twice as int, word_sum(d));
    }
    0xFFFF - twice as u16
}

/// Below `DEFERRED_CARRIES_MAX_BYTES` bytes, the word sum fits in 32 bits, so the naive wrapping
/// checksum agrees with the Internet checksum.
pub proof fn lemma_naive_correct_within_deferred_carries_limit(data: Seq<u8>)
    requires
        data.len() <= DEFERRED_CARRIES_MAX_BYTES,
    ensures
        0xFFFF - ones_complement_fold((word_sum(data) as int % 0x1_0000_0000) as nat)
            == internet_checksum(data),
{
    lemma_words_sum_bound(data, word_count(data));
    assert(word_count(data) * 65535 < 0x1_0000_0000) by (nonlinear_arith)
        requires
            word_count(data) <= 65537,
    ;
    lemma_fundamental_div_mod_converse(word_sum(data) as int, 0x1_0000_0000, 0, word_sum(data) as int);
}

/// `n` bytes of `0xFF`, the worst case for a deferred-carries accumulator.
pub open spec fn all_ones_bytes(n: nat) -> Seq<u8> {
    Seq::new(n, |i: int| 0xFFu8)
}

/// The first `k` full words of all-`0xFF` bytes sum to `k * 0xFFFF`.
proof fn lemma_all_ones_words_sum(n: nat, k: nat)
    requires
        2 * k <= n,
    ensures
        words_sum(all_ones_bytes(n), k) == k * 65535,
    decreases k,
{
    if k > 0 {
        lemma_all_ones_words_sum(n, (k - 1) as nat);
    }
}

/// Past `DEFERRED_CARRIES_MAX_BYTES` the naive wrapping checksum goes wrong: for every length from
/// 131,075 to 131,083 bytes of `0xFF`, it differs from the Internet checksum.
pub proof fn lemma_naive_wrong_past_deferred_carries_limit(n: nat)
    requires
        DEFERRED_CARRIES_MAX_BYTES < n <= 131_083,
    ensures
        0xFFFF - ones_complement_fold((word_sum(all_ones_bytes(n)) as int % 0x1_0000_0000) as nat)
            != internet_checksum(all_ones_bytes(n)),
{
    let d = all_ones_bytes(n);
    let h = n / 2;
    lemma_all_ones_words_sum(n, h);
    let s = word_sum(d);
    if n % 2 == 0 {
        assert(word_count(d) == h);
        assert(s == h * 65535);
    } else {
        assert(word_count(d) == h + 1);
        assert(word_at(d, h as int) == 65280);
        assert(s == h * 65535 + 65280);
    }
    assert(65537 <= h <= 65541);
    lemma_fundamental_div_mod_converse(s as int, 0x1_0000_0000, 1, s - 0x1_0000_0000);
    lemma_fundamental_div_mod_converse(s - 1, 65535, h - (if n % 2 == 0 { 1int } else { 0int }), (if n % 2 == 0 { 65534int } else { 65279int }));
    let w = s - 0x1_0000_0000;
    if n % 2 == 0 {
        lemma_fundamental_div_mod_converse(w - 1, 65535, h - 65538, 65533);
    } else {
        lemma_fundamental_div_mod_converse(w - 1, 65535, h - 65537, 65278);
    }
}

/// Writing the checksum of `data` big-endian into a 16-bit word that held zero makes the checksum
/// of the result zero: this is how a receiver validates a checksummed header.
pub proof fn lemma_embedded_checksum_validates(data: Seq<u8>, j: int)
    requires
        0 <= j,
        2 * j + 1 < data.len(),
        data[2 * j] == 0,
        data[2 * j + 1] == 0,
    ensures
        internet_checksum(
            data.update(2 * j, (internet_checksum(data) / 256) as u8).update(
                2 * j + 1,
                (internet_checksum(data) % 256) as u8,
            ),
        ) == 0,
{
    let c = internet_checksum(data);
    let hi = (c / 256) as u8;
    let lo = (c % 256) as u8;
    let d2 = data.update(2 * j, hi).update(2 * j + 1, lo);
    let s = word_sum(data);
    lemma_words_sum_update(data, j, hi, lo, word_count(data));
    assert(word_count(d2) == word_count(data));
    assert(word_at(data, j) == 0);
    assert(hi * 256 + lo == c);
    let f = ones_complement_fold(s);
    let s2 = word_sum(d2);
    assert(s2 == s + 65535 - f);
    if s == 0 {
        assert(s2 == 65535);
        lemma_fold_result(65535, s2);
    } else {
        lemma_fundamental_div_mod((s - 1) as int, 65535);
        assert(f <= s);
        lemma_mod_multiples_vanish(1, (s - f) as int, 65535);
        lemma_fold_result(f as int, s);
        assert((s - f) as int % 65535 == 0) by {
            lemma_congruent_add(s as int, f as int, -(f as int));
        }
        assert(s2 as int % 65535 == 0);
        lemma_fold_result(65535, s2);
    }
}

/// Swapping two 16-bit words of `data` leaves its checksum unchanged: the checksum is a sum of
/// words, so it does not depend on their order.
pub proof fn lemma_swapping_words_preserves_checksum(data: Seq<u8>, i: int, j: int)
    requires
        0 <= i,
        0 <= j,
        2 * i + 1 < data.len(),
        2 * j + 1 < data.len(),
    ensures
        internet_checksum(
            data.update(2 * i, data[2 * j]).update(2 * i + 1, data[2 * j + 1]).update(
                2 * j,
                data[2 * i],
            ).update(2 * j + 1, data[2 * i + 1]),
        ) == internet_checksum(data),
{
    let d1 = data.update(2 * i, data[2 * j]).update(2 * i + 1, data[2 * j + 1]);
    let d2 = d1.update(2 * j, data[2 * i]).update(2 * j + 1, data[2 * i + 1]);
    lemma_words_sum_update(data, i, data[2 * j], data[2 * j + 1], word_count(data));
    lemma_words_sum_update(d1, j, data[2 * i], data[2 * i + 1], word_count(d1));
    if i == j {
        assert(d2 =~= data);
    } else {
        assert(word_at(d1, j) == word_at(data, j));
    }
    assert(word_sum(d2) == word_sum(data));
}


/// Where the checksum of `data` (with a zero checksum field at word `j`) comes out as zero, a
/// field of `0xFFFF`, the other representation of zero in one's complement, verifies as well.
pub proof fn lemma_all_ones_checksum_field_validates(data: Seq<u8>, j: int)
    requires
        0 <= j,
        2 * j + 1 < data.len(),
        data[2 * j] == 0,
        data[2 * j + 1] == 0,
        internet_checksum(data) == 0,
    ensures
        internet_checksum(data.update(2 * j, 0xFFu8).update(2 * j + 1, 0xFFu8)) == 0,
{
    let d2 = data.update(2 * j, 0xFFu8).update(2 * j + 1, 0xFFu8);
    let s = word_sum(data);
    lemma_words_sum_update(data, j, 0xFFu8, 0xFFu8, word_count(data));
    assert(word_count(d2) == word_count(data));
    assert(word_at(data, j) == 0);
    let s2 = word_sum(d2);
    assert(s2 == s + 65535);
    assert(ones_complement_fold(s) == 65535);
    assert(s != 0);
    lemma_fold_result(65535, s);
    assert((s2 as int) % 65535 == (s as int) % 65535) by {
        lemma_mod_multiples_vanish(1, s as int, 65535);
    }
    lemma_fold_result(65535, s2);
}

} // verus!
