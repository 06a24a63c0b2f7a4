//! Density bitmaps: one bit per candidate point, packed into 64-bit words,
//! least significant bit of the first word first.

use vstd::prelude::*;

verus! {

/// Number of bits in one word of a density bitmap.
pub const WORD_BITS: usize = 64;

/// Bit `i` of a single word.
pub open spec fn word_bit(word: u64, i: int) -> bool {
    (word >> (i as u64)) & 1u64 == 1u64
}

/// Bit `i` of the bitmap stored in `words`. Positions outside the stored
/// words read as clear.
pub open spec fn bit_at(words: Seq<u64>, i: int) -> bool {
    0 <= i < 64 * words.len() && word_bit(words[i / 64], i % 64)
}

/// Number of set bits among the first `n` positions of the bitmap.
pub open spec fn count_set(words: Seq<u64>, n: int) -> nat
    decreases n,
{
    if n <= 0 {
        0
    } else {
        count_set(words, n - 1) + if bit_at(words, n - 1) {
            1nat
        } else {
            0nat
        }
    }
}

/// Reads bit `i` of the bitmap; positions outside the stored words read as
/// clear.
pub fn test_bit(words: &[u64], i: usize) -> (b: bool)
    ensures
        b == bit_at(words@, i as int),
{
    let w: usize = i / WORD_BITS;
    if w >= words.len() {
        return false;
    }
    let shift: u64 = (i % WORD_BITS) as u64;
    (words[w] >> shift) & 1u64 == 1u64
}

/// Counts the set bits among the first `n` positions of the bitmap.
pub fn count_bits(words: &[u64], n: usize) -> (c: usize)
    ensures
        c == count_set(words@, n as int),
{
    let mut c: usize = 0;
    let mut i: usize = 0;
    while i < n
        invariant
            i <= n,
            c == count_set(words@, i as int),
            c <= i,
        decreases n - i,
    {
        if test_bit(words, i) {
            c = c + 1;
        }
        i = i + 1;
    }
    c
}

} // verus!
