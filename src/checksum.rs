//! The sector checksum: a wrapping sum of little-endian 32-bit words, folded to 16 bits.
use vstd::arithmetic::div_mod::{lemma_add_mod_noop_right, lemma_fundamental_div_mod};
use vstd::prelude::*;
use vstd::slice::slice_subrange;

use crate::layout::{le_u32, read_u32_le};

verus! {

/// Number of payload bytes covered by the checksum of a sector of section `id`.
pub open spec fn section_len(id: int) -> int {
    if id == 0 {
        3884
    } else if id == 4 {
        3848
    } else if id == 13 {
        2000
    } else {
        3968
    }
}

/// The little-endian word with index `w` (bytes `4 * w .. 4 * w + 4`) of `data`.
pub open spec fn word_at(data: Seq<u8>, w: int) -> int {
    le_u32(data.subrange(4 * w, 4 * w + 4)) as int
}

/// Sum, as an unbounded integer, of the first `n` words of `data`.
pub open spec fn word_sum(data: Seq<u8>, n: nat) -> int
    decreases n,
{
    if n == 0 {
        0
    } else {
        word_sum(data, (n - 1) as nat) + word_at(data, n - 1)
    }
}

/// A 32-bit accumulator folded to 16 bits: its two halves added modulo 2^16.
pub open spec fn fold16(acc: int) -> u16 {
    ((acc / 0x10000 + acc % 0x10000) % 0x10000) as u16
}

/// The checksum of a payload made of whole words: the words summed modulo 2^32,
/// then folded to 16 bits.
pub open spec fn checksum_of(payload: Seq<u8>) -> u16 {
    fold16(word_sum(payload, payload.len() / 4) % 0x1_0000_0000)
}

/// Number of payload bytes covered by the checksum of a sector of section
/// `section_id`; `None` for an id outside the table.
pub fn section_length(section_id: u8) -> (r: Option<usize>)
    ensures
        section_id < 14 ==> r == Some(section_len(section_id as int) as usize),
        section_id >= 14 ==> r is None,
{
    if section_id >= 14 {
        None
    } else if section_id == 0 {
        Some(3884)
    } else if section_id == 4 {
        Some(3848)
    } else if section_id == 13 {
        Some(2000)
    } else {
        Some(3968)
    }
}

/// Computes the checksum of a payload: the sum of its little-endian 32-bit words
/// with 32-bit wrapping addition, whose high and low halves are then added with
/// 16-bit wrapping addition.
pub fn calculate_checksum(payload: &[u8]) -> (r: u16)
    requires
        payload@.len() % 4 == 0,
    ensures
        r == checksum_of(payload@),
{
    let mut checksum: u32 = 0;
    let mut i: usize = 0;
    while i < payload.len()
        invariant
            i % 4 == 0,
            i <= payload@.len(),
            payload@.len() % 4 == 0,
            checksum as int == word_sum(payload@, (i / 4) as nat) % 0x1_0000_0000,
        decreases payload@.len() - i,
    {
        let word = read_u32_le(slice_subrange(payload, i, i + 4));
        proof {
            let w = i / 4;
            assert(4 * w == i);
            assert(word_sum(payload@, (w + 1) as nat) == word_sum(payload@, w as nat) + word as int);
            lemma_add_mod_noop_right(word as int, word_sum(payload@, w as nat), 0x1_0000_0000);
        }
        checksum = checksum.wrapping_add(word);
        i = i + 4;
    }
    let high = (checksum >> 16) as u16;
    let low = checksum as u16;
    assert(high == checksum / 0x10000) by (bit_vector)
        requires
            high == (checksum >> 16) as u16,
    ;
    assert(low == checksum % 0x10000) by (bit_vector)
        requires
            low == checksum as u16,
    ;
    high.wrapping_add(low)
}

/// The 16-bit fold of a 32-bit accumulator, written with shifts and masks.
spec fn fold_u64(x: u64) -> u64 {
    (((x >> 16) + (x & 0xFFFF)) as u64) & 0xFFFF
}

/// If adding `d` to a 32-bit accumulator (modulo 2^32) keeps its fold, then the
/// halves of `d` add up to 0 modulo 2^16, or, with a carry out of the low half,
/// to 0xFFFF.
proof fn lemma_fold_after_add(acc: u64, acc2: u64, d: u64)
    by (bit_vector)
    requires
        acc < 0x1_0000_0000,
        d < 0x1_0000_0000,
        acc2 == acc + d || acc2 + 0x1_0000_0000 == acc + d,
        acc2 < 0x1_0000_0000,
        fold_u64(acc2) == fold_u64(acc),
    ensures
        fold_u64(d) == 0 || (d & 0xFFFF != 0 && fold_u64(d) == 0xFFFF),
{
}

/// The change of a word whose one byte moves from `a` to `v`, taken modulo 2^32,
/// is neither of the deltas that keep the fold.
proof fn lemma_byte_delta(a: u64, v: u64, d: u64)
    by (bit_vector)
    requires
        a < 256,
        v < 256,
        a != v,
        d < 0x1_0000_0000,
        d + a == v || d + a == v + 0x1_0000_0000 || d + (a << 8) == (v << 8) || d + (a << 8)
            == (v << 8) + 0x1_0000_0000 || d + (a << 16) == (v << 16) || d + (a << 16) == (v << 16)
            + 0x1_0000_0000 || d + (a << 24) == (v << 24) || d + (a << 24) == (v << 24)
            + 0x1_0000_0000,
    ensures
        fold_u64(d) != 0,
        d & 0xFFFF == 0 || fold_u64(d) != 0xFFFF,
{
}

/// The fold with shifts and masks is the fold with division and remainder.
proof fn lemma_fold_matches(x: u64)
    by (bit_vector)
    requires
        x < 0x1_0000_0000,
    ensures
        fold_u64(x) == ((x / 0x10000 + x % 0x10000) % 0x10000) as u64,
{
}

/// Sums of words change by the change of the one word that differs.
proof fn lemma_word_sum_one_changed(p: Seq<u8>, q: Seq<u8>, w0: int, n: nat)
    requires
        0 <= w0,
        forall|w: int| 0 <= w < n && w != w0 ==> word_at(p, w) == word_at(q, w),
    ensures
        n <= w0 ==> word_sum(q, n) == word_sum(p, n),
        n > w0 ==> word_sum(q, n) == word_sum(p, n) - word_at(p, w0) + word_at(q, w0),
    decreases n,
{
    if n > 0 {
        lemma_word_sum_one_changed(p, q, w0, (n - 1) as nat);
    }
}

/// Changing byte `k` of a payload to `v` moves the word that holds it by
/// `(v - p[k]) * 256^(k % 4)` and leaves the other words alone.
proof fn lemma_byte_update_words(p: Seq<u8>, k: int, v: u8)
    requires
        0 <= k < p.len(),
        p.len() % 4 == 0,
    ensures
        forall|w: int| 0 <= w < p.len() / 4 && w != k / 4 ==> word_at(p, w) == word_at(p.update(k, v), w),
        k % 4 == 0 ==> word_at(p.update(k, v), k / 4) + p[k] == word_at(p, k / 4) + v,
        k % 4 == 1 ==> word_at(p.update(k, v), k / 4) + p[k] * 0x100 == word_at(p, k / 4) + v * 0x100,
        k % 4 == 2 ==> word_at(p.update(k, v), k / 4) + p[k] * 0x10000 == word_at(p, k / 4) + v
            * 0x10000,
        k % 4 == 3 ==> word_at(p.update(k, v), k / 4) + p[k] * 0x1000000 == word_at(p, k / 4) + v
            * 0x1000000,
{
    let q = p.update(k, v);
    assert forall|w: int| 0 <= w < p.len() / 4 && w != k / 4 implies word_at(p, w) == word_at(q, w) by {
        assert(p.subrange(4 * w, 4 * w + 4) =~= q.subrange(4 * w, 4 * w + 4));
    }
    let w0 = k / 4;
    let b = p.subrange(4 * w0, 4 * w0 + 4);
    let c = q.subrange(4 * w0, 4 * w0 + 4);
    assert(c =~= b.update(k - 4 * w0, v));
}

/// Changing any one byte of a payload changes its checksum.
pub proof fn lemma_checksum_detects_byte_change(p: Seq<u8>, k: int, v: u8)
    requires
        p.len() % 4 == 0,
        0 <= k < p.len(),
        v != p[k],
    ensures
        checksum_of(p.update(k, v)) != checksum_of(p),
{
    let q = p.update(k, v);
    let n = p.len() / 4;
    let w0 = k / 4;
    lemma_byte_update_words(p, k, v);
    lemma_word_sum_one_changed(p, q, w0, n);
    let m: int = 0x1_0000_0000;
    let kk: int = if k % 4 == 0 {
        1
    } else if k % 4 == 1 {
        0x100
    } else if k % 4 == 2 {
        0x10000
    } else {
        0x1000000
    };
    let sp = word_sum(p, n);
    let sq = word_sum(q, n);
    assert(sq + p[k] * kk == sp + v * kk);
    let delta: int = (v - p[k]) * kk;
    assert(-m < delta < m) by {
        if kk == 1 {
        } else if kk == 0x100 {
        } else if kk == 0x10000 {
        } else {
        }
    }
    let d: int = if delta >= 0 {
        delta
    } else {
        delta + m
    };
    let acc = sp % m;
    let acc2 = sq % m;
    lemma_fundamental_div_mod(sp, m);
    lemma_fundamental_div_mod(sq, m);
    assert(sq == sp + delta);
    assert(acc2 == acc + d || acc2 + m == acc + d) by {
        lemma_add_mod_noop_right(sp, d, m);
        assert((sp + d) % m == acc2) by {
            if delta < 0 {
                vstd::arithmetic::div_mod::lemma_mod_add_multiples_vanish(sq, m);
            }
        }
        lemma_add_mod_noop_right(d, acc, m);
        assert((acc + d) % m == acc2) by {
            vstd::arithmetic::div_mod::lemma_add_mod_noop(sp, d, m);
            vstd::arithmetic::div_mod::lemma_mod_twice(sp, m);
        }
        lemma_fundamental_div_mod(acc + d, m);
    }
    let acc_u = acc as u64;
    let acc2_u = acc2 as u64;
    let d_u = d as u64;
    let a_u = p[k] as u64;
    let v_u = v as u64;
    lemma_fold_matches(acc_u);
    lemma_fold_matches(acc2_u);
    if checksum_of(q) == checksum_of(p) {
        assert(fold_u64(acc2_u) == fold_u64(acc_u));
        lemma_fold_after_add(acc_u, acc2_u, d_u);
        lemma_shifts(a_u);
        lemma_shifts(v_u);
        lemma_byte_delta(a_u, v_u, d_u);
    }
}

/// Shifting a byte left is multiplying it by a power of two.
proof fn lemma_shifts(a: u64)
    by (bit_vector)
    requires
        a < 256,
    ensures
        a << 8 == a * 0x100,
        a << 16 == a * 0x10000,
        a << 24 == a * 0x1000000,
{
}

/// The payload `p` with its whole words `i` and `j` exchanged.
pub open spec fn swap_words(p: Seq<u8>, i: int, j: int) -> Seq<u8> {
    Seq::new(
        p.len(),
        |x: int|
            if 4 * i <= x < 4 * i + 4 {
                p[x - 4 * i + 4 * j]
            } else if 4 * j <= x < 4 * j + 4 {
                p[x - 4 * j + 4 * i]
            } else {
                p[x]
            },
    )
}

/// Sums of words change by the changes of the two words that differ.
proof fn lemma_word_sum_two_changed(p: Seq<u8>, q: Seq<u8>, i: int, j: int, n: nat)
    requires
        0 <= i < j,
        forall|w: int| 0 <= w < n && w != i && w != j ==> word_at(p, w) == word_at(q, w),
    ensures
        word_sum(q, n) == word_sum(p, n) + (if n > i {
            word_at(q, i) - word_at(p, i)
        } else {
            0
        }) + (if n > j {
            word_at(q, j) - word_at(p, j)
        } else {
            0
        }),
    decreases n,
{
    if n > 0 {
        lemma_word_sum_two_changed(p, q, i, j, (n - 1) as nat);
    }
}

/// Exchanging two whole words of a payload leaves its checksum unchanged.
pub proof fn lemma_checksum_word_swap(p: Seq<u8>, i: int, j: int)
    requires
        p.len() % 4 == 0,
        0 <= i < j < p.len() / 4,
    ensures
        checksum_of(swap_words(p, i, j)) == checksum_of(p),
{
    let q = swap_words(p, i, j);
    assert forall|w: int| 0 <= w < p.len() / 4 && w != i && w != j implies word_at(p, w)
        == word_at(q, w) by {
        assert(p.subrange(4 * w, 4 * w + 4) =~= q.subrange(4 * w, 4 * w + 4));
    }
    assert(q.subrange(4 * i, 4 * i + 4) =~= p.subrange(4 * j, 4 * j + 4));
    assert(q.subrange(4 * j, 4 * j + 4) =~= p.subrange(4 * i, 4 * i + 4));
    lemma_word_sum_two_changed(p, q, i, j, (p.len() / 4) as nat);
}

} // verus!
