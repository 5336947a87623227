//! Fixed-width words read out of a byte buffer, in either byte order.
//!
//! Executable images store their header fields, section tables and symbol
//! entries as little- or big-endian words of one to eight bytes. The spec
//! functions here give such a word's value as an integer; [`read_word`] is the
//! verified reader the image parser builds on.

use vstd::arithmetic::mul::lemma_mul_inequality;
use vstd::arithmetic::mul::lemma_mul_nonnegative;
use vstd::prelude::*;

verus! {

/// 256^n: the number of distinct values of an n-byte word.
pub open spec fn pow256(n: nat) -> int
    decreases n,
{
    if n == 0 {
        1
    } else {
        256 * pow256((n - 1) as nat)
    }
}

/// Value of the n-byte little-endian word at `off` in `b`.
pub open spec fn word_le(b: Seq<u8>, off: int, n: nat) -> int
    decreases n,
{
    if n == 0 {
        0
    } else {
        word_le(b, off, (n - 1) as nat) + b[off + n - 1] * pow256((n - 1) as nat)
    }
}

/// Value of the n-byte big-endian word at `off` in `b`.
pub open spec fn word_be(b: Seq<u8>, off: int, n: nat) -> int
    decreases n,
{
    if n == 0 {
        0
    } else {
        word_be(b, off, (n - 1) as nat) * 256 + b[off + n - 1]
    }
}

/// Value of the n-byte word at `off` in `b`, little-endian when `little`.
pub open spec fn word_at(b: Seq<u8>, off: int, n: nat, little: bool) -> int {
    if little {
        word_le(b, off, n)
    } else {
        word_be(b, off, n)
    }
}

pub proof fn lemma_pow256_pos(n: nat)
    ensures
        pow256(n) >= 1,
    decreases n,
{
    if n > 0 {
        lemma_pow256_pos((n - 1) as nat);
    }
}

pub proof fn lemma_pow256_monotone(i: nat, j: nat)
    requires
        i <= j,
    ensures
        pow256(i) <= pow256(j),
    decreases j,
{
    if i < j {
        lemma_pow256_monotone(i, (j - 1) as nat);
        lemma_pow256_pos((j - 1) as nat);
    }
}

/// An n-byte word's value is nonnegative and below 256^n.
pub proof fn lemma_word_bound(b: Seq<u8>, off: int, n: nat, little: bool)
    ensures
        0 <= word_at(b, off, n, little) < pow256(n),
    decreases n,
{
    if n > 0 {
        let m = (n - 1) as nat;
        lemma_word_bound(b, off, m, true);
        lemma_word_bound(b, off, m, false);
        lemma_pow256_pos(m);
        lemma_mul_inequality(b[off + n - 1] as int, 255, pow256(m));
        lemma_mul_nonnegative(b[off + n - 1] as int, pow256(m));
        assert(word_be(b, off, m) * 256 <= (pow256(m) - 1) * 256) by (nonlinear_arith)
            requires
                word_be(b, off, m) <= pow256(m) - 1,
        ;
        assert(word_be(b, off, m) * 256 >= 0) by (nonlinear_arith)
            requires
                word_be(b, off, m) >= 0,
        ;
    }
}

/// A little-endian word can also be peeled at its first, least significant
/// byte.
pub proof fn lemma_word_le_peel_front(b: Seq<u8>, off: int, n: nat)
    requires
        n >= 1,
    ensures
        word_le(b, off, n) == b[off] + 256 * word_le(b, off + 1, (n - 1) as nat),
    decreases n,
{
    reveal_with_fuel(word_le, 3);
    reveal_with_fuel(pow256, 3);
    let m = (n - 1) as nat;
    if m == 0 {
    } else {
        lemma_word_le_peel_front(b, off, m);
        assert(word_le(b, off + 1, m) == word_le(b, off + 1, (m - 1) as nat) + b[off + m] * pow256(
            (m - 1) as nat,
        ));
        assert(b[off + n - 1] * pow256(m) == 256 * (b[off + n - 1] * pow256((m - 1) as nat)))
            by (nonlinear_arith)
            requires
                m >= 1,
                pow256(m) == 256 * pow256((m - 1) as nat),
        ;
    }
}

/// Reads the n-byte word at `off` in `bytes`, little-endian when `little`.
pub fn read_word(bytes: &Vec<u8>, off: usize, n: usize, little: bool) -> (r: u64)
    requires
        1 <= n <= 8,
        off + n <= bytes@.len(),
    ensures
        r == word_at(bytes@, off as int, n as nat, little),
{
    proof {
        reveal_with_fuel(pow256, 9);
    }
    let len = bytes.len();
    let mut r: u64 = 0;
    if little {
        let mut i: usize = n;
        while i > 0
            invariant
                n <= 8,
                i <= n,
                off + n <= len,
                len == bytes@.len(),
                r == word_le(bytes@, off + i, (n - i) as nat),
                r < pow256((n - i) as nat),
            decreases i,
        {
            proof {
                reveal_with_fuel(pow256, 9);
                lemma_pow256_monotone((n - i) as nat, 7);
                lemma_word_le_peel_front(bytes@, off + i - 1, (n - i + 1) as nat);
            }
            i = i - 1;
            r = r * 256 + (bytes[off + i] as u64);
            proof {
                lemma_word_bound(bytes@, off + i, (n - i) as nat, true);
            }
        }
    } else {
        let mut i: usize = 0;
        while i < n
            invariant
                n <= 8,
                i <= n,
                off + n <= len,
                len == bytes@.len(),
                r == word_be(bytes@, off as int, i as nat),
                r < pow256(i as nat),
            decreases n - i,
        {
            proof {
                reveal_with_fuel(pow256, 9);
                lemma_pow256_monotone(i as nat, 7);
            }
            r = r * 256 + (bytes[off + i] as u64);
            i = i + 1;
            proof {
                lemma_word_bound(bytes@, off as int, i as nat, false);
            }
        }
    }
    r
}

} // verus!
