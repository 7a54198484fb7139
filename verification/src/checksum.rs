//! Internet checksum (RFC 1071 style) over big-endian 16-bit words.

use vstd::prelude::*;

verus! {

/// The big-endian 16-bit word that starts at byte `2 * k`; a trailing odd
/// byte is padded with a zero low byte.
pub open spec fn word_at(data: Seq<u8>, k: int) -> int {
    let hi = data[2 * k] as int;
    let lo = if 2 * k + 1 < data.len() { data[2 * k + 1] as int } else { 0 };
    hi * 256 + lo
}

/// Number of 16-bit words (chunks of two bytes) in `data`.
pub open spec fn word_count(data: Seq<u8>) -> int {
    (data.len() as int + 1) / 2
}

/// Sum of the first `k` words of `data`.
pub open spec fn word_sum_upto(data: Seq<u8>, k: int) -> int
    decreases k,
{
    if k <= 0 {
        0
    } else {
        word_sum_upto(data, k - 1) + word_at(data, k - 1)
    }
}

/// Sum of all 16-bit words of `data`.
pub open spec fn word_sum(data: Seq<u8>) -> int {
    word_sum_upto(data, word_count(data))
}

/// The one's-complement (end-around carry) sum of 16-bit words whose plain
/// sum is `sum`: carries out of the low 16 bits are added back in until none
/// remain.
pub open spec fn ones_fold(sum: int) -> int
    decreases sum,
{
    if sum <= 0xFFFF {
        sum
    } else {
        ones_fold(sum % 0x10000 + sum / 0x10000)
    }
}

/// The one's complement of the one's-complement sum of words summing to
/// `sum`.
pub open spec fn fold_complement(sum: int) -> u16 {
    (0xFFFF - ones_fold(sum)) as u16
}

/// The checksum of `data`.
pub open spec fn spec_checksum(data: Seq<u8>) -> u16 {
    fold_complement(word_sum(data))
}

/// Big-endian value of the two address octets `a`, `b`.
pub open spec fn pair(a: u8, b: u8) -> int {
    a as int * 256 + b as int
}

/// The sum over the TCP/UDP pseudo header and the segment `data`.
pub open spec fn pseudo_header_sum(src: Seq<u8>, dst: Seq<u8>, proto: u8, data: Seq<u8>) -> int {
    pair(src[2], src[3]) + pair(src[0], src[1]) + pair(dst[2], dst[3]) + pair(dst[0], dst[1])
        + proto as int + (data.len() as int % 0x10000) + word_sum(data)
}

/// Pseudo-header checksum of `data` as used by TCP and UDP.
pub open spec fn spec_ph_checksum(src: Seq<u8>, dst: Seq<u8>, proto: u8, data: Seq<u8>) -> u16 {
    fold_complement(pseudo_header_sum(src, dst, proto, data))
}

proof fn lemma_word_bound(data: Seq<u8>, k: int)
    requires
        0 <= k < word_count(data),
    ensures
        0 <= word_at(data, k) <= 0xFFFF,
{
}

/// The sum of the first `k` words is at most `k * 0xFFFF`.
pub proof fn lemma_word_sum_bound(data: Seq<u8>, k: int)
    requires
        0 <= k <= word_count(data),
    ensures
        0 <= word_sum_upto(data, k) <= k * 0xFFFF,
    decreases k,
{
    if k > 0 {
        lemma_word_sum_bound(data, k - 1);
        lemma_word_bound(data, k - 1);
    }
}

/// A buffer of at most 128 KiB never overflows the 32-bit accumulator.
pub proof fn lemma_checksum_fits(data: Seq<u8>)
    requires
        data.len() <= 0x20000,
    ensures
        0 <= word_sum(data) <= 0x10000 * 0xFFFF,
{
    lemma_word_sum_bound(data, word_count(data));
    assert(word_count(data) <= 0x10000);
    assert(word_count(data) * 0xFFFF <= 0x10000 * 0xFFFF) by (nonlinear_arith)
        requires
            word_count(data) <= 0x10000,
    ;
}

/// The end-around-carry fold of a non-negative sum stays in 16 bits, agrees
/// with the sum modulo 0xFFFF, and is zero only for a zero sum.
pub proof fn lemma_ones_fold(sum: int)
    requires
        sum >= 0,
    ensures
        0 <= ones_fold(sum) <= 0xFFFF,
        ones_fold(sum) % 0xFFFF == sum % 0xFFFF,
        sum > 0 ==> ones_fold(sum) > 0,
    decreases sum,
{
    if sum > 0xFFFF {
        let q = sum / 0x10000;
        let r = sum % 0x10000;
        let next = r + q;
        assert(sum == 0x10000 * q + r);
        assert(q >= 1);
        lemma_ones_fold(next);
        assert(sum == 0xFFFF * q + next);
        vstd::arithmetic::div_mod::lemma_mod_multiples_vanish(q, next, 0xFFFF);
    }
}

fn fold(sum: u32) -> (r: u16)
    ensures
        r == fold_complement(sum as int),
{
    let mut s: u32 = sum;
    while s > 0xFFFF
        invariant
            ones_fold(s as int) == ones_fold(sum as int),
        decreases s,
    {
        let lo = s & 0xFFFF;
        let hi = s >> 16;
        assert(lo == s % 0x10000) by (bit_vector)
            requires
                lo == s & 0xFFFF,
        ;
        assert(hi == s / 0x10000) by (bit_vector)
            requires
                hi == s >> 16,
        ;
        s = lo + hi;
    }
    let folded: u16 = s as u16;
    let r: u16 = !folded;
    assert(r == 0xFFFF - folded) by (bit_vector)
        requires
            r == !folded,
    ;
    r
}

/// Adds the words of `data` to `start`.
fn add_words(start: u32, data: &[u8]) -> (sum: u32)
    requires
        start + word_sum(data@) <= u32::MAX,
    ensures
        sum == start + word_sum(data@),
{
    let n = data.len();
    let count: usize = n / 2 + n % 2;
    let mut sum: u32 = start;
    let mut k: usize = 0;
    proof {
        lemma_word_sum_bound(data@, word_count(data@));
    }
    while k < count
        invariant
            n == data@.len(),
            count == word_count(data@),
            k <= count,
            start + word_sum(data@) <= u32::MAX,
            sum == start + word_sum_upto(data@, k as int),
        decreases count - k,
    {
        let i = 2 * k;
        let b0 = data[i];
        let b1: u8 = if i + 1 < n {
            data[i + 1]
        } else {
            0x00
        };
        proof {
            assert(word_at(data@, k as int) == b0 as int * 256 + b1 as int);
            lemma_word_sum_monotone(data@, k + 1, word_count(data@));
        }
        let w: u32 = (b0 as u32) * 256 + (b1 as u32);
        sum = sum + w;
        k = k + 1;
    }
    sum
}

/// Word sums only grow as more words are added.
pub proof fn lemma_word_sum_monotone(data: Seq<u8>, a: int, b: int)
    requires
        0 <= a <= b <= word_count(data),
    ensures
        word_sum_upto(data, a) <= word_sum_upto(data, b),
    decreases b - a,
{
    if a < b {
        lemma_word_sum_monotone(data, a, b - 1);
        lemma_word_bound(data, b - 1);
    }
}

/// Computes the Internet checksum used in various networking protocols: the
/// one's complement of the one's-complement (end-around carry) sum of the
/// data as big-endian `u16` values.
pub fn checksum(data: &[u8]) -> (r: u16)
    requires
        word_sum(data@) <= u32::MAX,
    ensures
        r == spec_checksum(data@),
{
    let sum = add_words(0, data);
    fold(sum)
}

/// Computes the pseudo-header checksum as used by TCP and UDP.
pub fn ph_checksum(src: [u8; 4], dst: [u8; 4], proto: u8, data: &[u8]) -> (r: u16)
    requires
        pseudo_header_sum(src@, dst@, proto, data@) <= u32::MAX,
    ensures
        r == spec_ph_checksum(src@, dst@, proto, data@),
{
    proof {
        lemma_word_sum_bound(data@, word_count(data@));
    }
    let mut sum: u32 = (src[2] as u32) * 256 + (src[3] as u32);
    sum = sum + (src[0] as u32) * 256 + (src[1] as u32);
    sum = sum + (dst[2] as u32) * 256 + (dst[3] as u32);
    sum = sum + (dst[0] as u32) * 256 + (dst[1] as u32);
    sum = sum + proto as u32;
    let len = data.len();
    let low: usize = len & 0xFFFF;
    assert(low == len % 0x10000) by (bit_vector)
        requires
            low == len & 0xFFFF,
    ;
    sum = sum + low as u32;
    let sum = add_words(sum, data);
    fold(sum)
}

/// The first `k` words of `a` followed by `b`, `a` holding at least `k`
/// whole words, are those of `a`.
proof fn lemma_word_sum_prefix(a: Seq<u8>, b: Seq<u8>, k: int)
    requires
        a.len() % 2 == 0,
        0 <= k <= a.len() / 2,
    ensures
        word_sum_upto(a + b, k) == word_sum_upto(a, k),
    decreases k,
{
    if k > 0 {
        lemma_word_sum_prefix(a, b, k - 1);
        assert(word_at(a + b, k - 1) == word_at(a, k - 1));
    }
}

/// Past the whole words of `a`, the words of `a` followed by `b` are those
/// of `b`.
proof fn lemma_word_sum_suffix(a: Seq<u8>, b: Seq<u8>, t: int)
    requires
        a.len() % 2 == 0,
        0 <= t <= word_count(b),
    ensures
        word_sum_upto(a + b, a.len() as int / 2 + t) == word_sum_upto(a, a.len() as int / 2) + word_sum_upto(b, t),
    decreases t,
{
    let m = a.len() as int / 2;
    if t == 0 {
        lemma_word_sum_prefix(a, b, m);
    } else {
        lemma_word_sum_suffix(a, b, t - 1);
        assert(word_at(a + b, m + t - 1) == word_at(b, t - 1));
    }
}

/// The words of `a` followed by `b`, when `a` is a whole number of words,
/// sum to the words of `a` and those of `b`.
pub proof fn lemma_word_sum_concat(a: Seq<u8>, b: Seq<u8>)
    requires
        a.len() % 2 == 0,
    ensures
        word_sum(a + b) == word_sum(a) + word_sum(b),
{
    assert(word_count(a + b) == a.len() / 2 + word_count(b));
    assert(word_count(a) == a.len() / 2);
    lemma_word_sum_suffix(a, b, word_count(b));
}

/// The TCP/UDP pseudo header: source and destination addresses, a zero
/// byte, the protocol and the 16-bit length of the segment.
pub open spec fn pseudo_header(src: Seq<u8>, dst: Seq<u8>, proto: u8, len: nat) -> Seq<u8> {
    src + dst + seq![0u8, proto, ((len % 0x10000) / 256) as u8, (len % 256) as u8]
}

/// The pseudo-header checksum of a segment is the Internet checksum of the
/// pseudo header followed by the segment.
pub proof fn lemma_ph_checksum_is_checksum(src: Seq<u8>, dst: Seq<u8>, proto: u8, data: Seq<u8>)
    requires
        src.len() == 4,
        dst.len() == 4,
    ensures
        spec_ph_checksum(src, dst, proto, data) == spec_checksum(
            pseudo_header(src, dst, proto, data.len()) + data,
        ),
{
    let h = pseudo_header(src, dst, proto, data.len());
    lemma_word_sum_concat(h, data);
    let l = data.len() as int % 0x10000;
    assert(word_count(h) == 6);
    reveal_with_fuel(word_sum_upto, 7);
    assert(word_at(h, 0) == pair(src[0], src[1]));
    assert(word_at(h, 1) == pair(src[2], src[3]));
    assert(word_at(h, 2) == pair(dst[0], dst[1]));
    assert(word_at(h, 3) == pair(dst[2], dst[3]));
    assert(word_at(h, 4) == proto as int);
    assert(word_at(h, 5) == l) by {
        assert(h[10] == (l / 256) as u8);
        assert(h[11] == (data.len() as int % 256) as u8);
        assert(data.len() as int % 256 == l % 256);
    }
    assert(word_sum(h) == pair(src[0], src[1]) + pair(src[2], src[3]) + pair(dst[0], dst[1])
        + pair(dst[2], dst[3]) + proto as int + l);
}

/// Writing the two bytes `a`, `b` into the zero word `j` adds that word's
/// value to every sum that covers it.
proof fn lemma_word_sum_update(data: Seq<u8>, j: int, a: u8, b: u8, k: int)
    requires
        0 <= j,
        2 * j + 1 < data.len(),
        data[2 * j] == 0,
        data[2 * j + 1] == 0,
        0 <= k <= word_count(data),
    ensures
        word_sum_upto(data.update(2 * j, a).update(2 * j + 1, b), k) == word_sum_upto(data, k) + (
        if k > j {
            a as int * 256 + b as int
        } else {
            0
        }),
    decreases k,
{
    let d = data.update(2 * j, a).update(2 * j + 1, b);
    if k > 0 {
        lemma_word_sum_update(data, j, a, b, k - 1);
        if k - 1 == j {
            assert(word_at(d, j) == a as int * 256 + b as int);
            assert(word_at(data, j) == 0);
        } else {
            assert(word_at(d, k - 1) == word_at(data, k - 1));
        }
    }
}

/// Filling the zero word `j` of `data` with the checksum of `base` plus the
/// words of `data` (high byte first) makes the one's-complement sum of
/// `base` and the filled words 0xFFFF: the receiver's check passes.
pub proof fn lemma_fill_verifies(base: int, data: Seq<u8>, j: int)
    requires
        base >= 0,
        0 <= j,
        2 * j + 1 < data.len(),
        data[2 * j] == 0,
        data[2 * j + 1] == 0,
    ensures
        ({
            let c = fold_complement(base + word_sum(data));
            let d = data.update(2 * j, (c / 256) as u8).update(2 * j + 1, (c % 256) as u8);
            &&& ones_fold(base + word_sum(d)) == 0xFFFF
            &&& fold_complement(base + word_sum(d)) == 0
        }),
{
    let s = base + word_sum(data);
    lemma_word_sum_bound(data, word_count(data));
    lemma_ones_fold(s);
    let f = ones_fold(s);
    let c = fold_complement(s);
    assert(c == 0xFFFF - f);
    let a = (c / 256) as u8;
    let b = (c % 256) as u8;
    let d = data.update(2 * j, a).update(2 * j + 1, b);
    lemma_word_sum_update(data, j, a, b, word_count(data));
    assert(word_count(d) == word_count(data));
    assert(a as int * 256 + b as int == c);
    let t = base + word_sum(d);
    assert(t == s + 0xFFFF - f);
    assert(t > 0);
    lemma_ones_fold(t);
    assert(t % 0xFFFF == 0) by {
        assert(s == 0xFFFF * (s / 0xFFFF) + s % 0xFFFF);
        assert(f == 0xFFFF * (f / 0xFFFF) + f % 0xFFFF);
        assert(t == 0xFFFF * (s / 0xFFFF - f / 0xFFFF + 1));
        vstd::arithmetic::div_mod::lemma_mod_multiples_vanish(s / 0xFFFF - f / 0xFFFF + 1, 0, 0xFFFF);
    }
}

/// A buffer whose zero checksum word `j` is filled with its checksum (high
/// byte first) checks to zero, and its one's-complement sum is 0xFFFF.
pub proof fn lemma_checksum_verifies(data: Seq<u8>, j: int)
    requires
        0 <= j,
        2 * j + 1 < data.len(),
        data[2 * j] == 0,
        data[2 * j + 1] == 0,
    ensures
        ({
            let d = data.update(2 * j, (spec_checksum(data) / 256) as u8).update(
                2 * j + 1,
                (spec_checksum(data) % 256) as u8,
            );
            &&& spec_checksum(d) == 0
            &&& ones_fold(word_sum(d)) == 0xFFFF
        }),
{
    lemma_fill_verifies(0, data, j);
}

/// A TCP or UDP segment whose zero checksum word `j` is filled with its
/// pseudo-header checksum checks to zero over the same pseudo header: the
/// one's-complement sum of the pseudo header and the filled segment is
/// 0xFFFF.
pub proof fn lemma_ph_checksum_verifies(src: Seq<u8>, dst: Seq<u8>, proto: u8, data: Seq<u8>, j: int)
    requires
        src.len() == 4,
        dst.len() == 4,
        0 <= j,
        2 * j + 1 < data.len(),
        data[2 * j] == 0,
        data[2 * j + 1] == 0,
    ensures
        ({
            let c = spec_ph_checksum(src, dst, proto, data);
            let d = data.update(2 * j, (c / 256) as u8).update(2 * j + 1, (c % 256) as u8);
            &&& spec_ph_checksum(src, dst, proto, d) == 0
            &&& ones_fold(pseudo_header_sum(src, dst, proto, d)) == 0xFFFF
        }),
{
    let base = pair(src[2], src[3]) + pair(src[0], src[1]) + pair(dst[2], dst[3]) + pair(dst[0], dst[1])
        + proto as int + (data.len() as int % 0x10000);
    lemma_fill_verifies(base, data, j);
}

} // verus!
