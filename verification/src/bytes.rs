//! Little-endian words in byte-addressed memory.
//!
//! Memory is a sequence of bytes; scalars are read and written as
//! little-endian words of one to eight bytes. The spec functions here give
//! the mathematical meaning of a stored word, and the lemmas relate storing
//! and loading.

use vstd::arithmetic::div_mod::{
    lemma_div_denominator, lemma_fundamental_div_mod_converse, lemma_mod_breakdown,
    lemma_small_mod,
};
use vstd::prelude::*;

verus! {

/// 256 to the power `w`: one more than the largest value that fits in `w` bytes.
pub open spec fn pow256(w: nat) -> nat
    decreases w,
{
    if w == 0 {
        1
    } else {
        256 * pow256((w - 1) as nat)
    }
}

/// A value fits in `w` bytes.
pub open spec fn fits(v: u64, w: nat) -> bool {
    (v as nat) < pow256(w)
}

/// Byte `k` of the little-endian encoding of `v`.
pub open spec fn nth_byte(v: nat, k: nat) -> nat {
    (v / pow256(k)) % 256
}

/// The little-endian word stored in `m` at addresses `a .. a + w`.
pub open spec fn word_at(m: Seq<u8>, a: int, w: nat) -> nat
    decreases w,
{
    if w == 0 {
        0
    } else {
        (m[a] + 256 * word_at(m, a + 1, (w - 1) as nat)) as nat
    }
}

/// The bytes of `m` at `a .. a + w` hold the little-endian encoding of `v`.
pub open spec fn holds_le(m: Seq<u8>, a: int, w: nat, v: nat) -> bool {
    &&& 0 <= a
    &&& a + w <= m.len()
    &&& forall|i: int| a <= i < a + w ==> #[trigger] m[i] == nth_byte(v, (i - a) as nat)
}

/// `new_m` is `old_m` with the `w`-byte little-endian encoding of `v`
/// written at `a`, and nothing else changed.
pub open spec fn stored(old_m: Seq<u8>, new_m: Seq<u8>, a: int, w: nat, v: u64) -> bool {
    &&& new_m.len() == old_m.len()
    &&& forall|i: int|
        0 <= i < old_m.len() && !(a <= i < a + w) ==> #[trigger] new_m[i] == old_m[i]
    &&& holds_le(new_m, a, w, v as nat)
}

/// `new_m` is `old_m` with the `n` bytes at `src` copied to `dst`,
/// and nothing outside `dst .. dst + n` changed.
pub open spec fn copied(old_m: Seq<u8>, new_m: Seq<u8>, src: int, dst: int, n: nat) -> bool {
    &&& new_m.len() == old_m.len()
    &&& forall|i: int|
        0 <= i < old_m.len() && !(dst <= i < dst + n) ==> #[trigger] new_m[i] == old_m[i]
    &&& forall|i: int| dst <= i < dst + n ==> #[trigger] new_m[i] == old_m[src + (i - dst)]
}

pub proof fn lemma_pow256_pos(w: nat)
    ensures
        pow256(w) >= 1,
    decreases w,
{
    if w > 0 {
        lemma_pow256_pos((w - 1) as nat);
    }
}

pub proof fn lemma_pow256_increases(w1: nat, w2: nat)
    requires
        w1 <= w2,
    ensures
        pow256(w1) <= pow256(w2),
    decreases w2,
{
    if w1 < w2 {
        lemma_pow256_increases(w1, (w2 - 1) as nat);
        lemma_pow256_pos((w2 - 1) as nat);
    }
}

/// A word of `w` bytes is below `256^w`.
pub proof fn lemma_word_at_bound(m: Seq<u8>, a: int, w: nat)
    requires
        0 <= a,
        a + w <= m.len(),
    ensures
        word_at(m, a, w) < pow256(w),
    decreases w,
{
    if w > 0 {
        lemma_word_at_bound(m, a + 1, (w - 1) as nat);
    }
}

/// Loading a word from memory that holds the encoding of `v` gives back
/// `v`, reduced modulo what `w` bytes can hold.
pub proof fn lemma_load_of_stored(m: Seq<u8>, a: int, w: nat, v: nat)
    requires
        holds_le(m, a, w, v),
    ensures
        word_at(m, a, w) == v % pow256(w),
    decreases w,
{
    if w == 0 {
        lemma_small_mod(v % 1, 1);
    } else {
        assert forall|i: int| a + 1 <= i < a + 1 + (w - 1) implies #[trigger] m[i] == nth_byte(
            v / 256,
            (i - (a + 1)) as nat,
        ) by {
            let k = i - (a + 1);
            assert(m[i] == nth_byte(v, (k + 1) as nat));
            lemma_pow256_pos((k) as nat);
            lemma_div_denominator(v as int, 256, pow256((k) as nat) as int);
            assert(pow256((k + 1) as nat) == 256 * pow256((k) as nat));
            assert(nth_byte(v, (k + 1) as nat) == ((v / 256) / pow256((k) as nat)) % 256);
        }
        lemma_load_of_stored(m, a + 1, (w - 1) as nat, v / 256);
        lemma_pow256_pos((w - 1) as nat);
        lemma_mod_breakdown(v as int, 256, pow256((w - 1) as nat) as int);
        assert(pow256(0) == 1);
        assert(m[a] == nth_byte(v, 0));
        assert(v / pow256(0) == v);
        assert(pow256(w) == 256 * pow256((w - 1) as nat));
    }
}

/// Each byte of a loaded word equals the byte in memory it came from.
pub proof fn lemma_bytes_of_word(m: Seq<u8>, a: int, w: nat, k: nat)
    requires
        0 <= a,
        a + w <= m.len(),
        k < w,
    ensures
        nth_byte(word_at(m, a, w), k) == m[a + k],
    decreases k,
{
    let v = word_at(m, a, w);
    let t = word_at(m, a + 1, (w - 1) as nat);
    assert(v == m[a] + 256 * t);
    lemma_fundamental_div_mod_converse(v as int, 256, t as int, m[a] as int);
    assert(v / 256 == t);
    assert(v % 256 == m[a]);
    if k == 0 {
        assert(pow256(0) == 1);
        assert(v / pow256(0) == v);
        assert(nth_byte(v, 0) == v % 256);
    } else {
        lemma_bytes_of_word(m, a + 1, (w - 1) as nat, (k - 1) as nat);
        lemma_pow256_pos((k - 1) as nat);
        lemma_div_denominator(v as int, 256, pow256((k - 1) as nat) as int);
        assert(pow256(k) == 256 * pow256((k - 1) as nat));
        assert(nth_byte(v, k) == ((v / 256) / pow256((k - 1) as nat)) % 256);
    }
}

/// A value that fits in `w` bytes survives a store-then-load round trip.
pub proof fn lemma_le_round_trip(m: Seq<u8>, a: int, w: nat, v: u64)
    requires
        fits(v, w),
        holds_le(m, a, w, v as nat),
    ensures
        word_at(m, a, w) == v,
{
    lemma_load_of_stored(m, a, w, v as nat);
    lemma_pow256_pos(w);
    lemma_small_mod(v as nat, pow256(w));
}


/// The concrete values of `pow256` for every scalar width.
pub proof fn lemma_pow256_values()
    ensures
        pow256(0) == 1,
        pow256(1) == 0x100,
        pow256(2) == 0x1_0000,
        pow256(3) == 0x100_0000,
        pow256(4) == 0x1_0000_0000,
        pow256(5) == 0x100_0000_0000,
        pow256(6) == 0x1_0000_0000_0000,
        pow256(7) == 0x100_0000_0000_0000,
        pow256(8) == 0x1_0000_0000_0000_0000,
{
    assert(pow256(0) == 1);
    assert(pow256(1) == 0x100);
    assert(pow256(2) == 0x1_0000);
    assert(pow256(3) == 0x100_0000);
    assert(pow256(4) == 0x1_0000_0000);
    assert(pow256(5) == 0x100_0000_0000);
    assert(pow256(6) == 0x1_0000_0000_0000);
    assert(pow256(7) == 0x100_0000_0000_0000);
    assert(pow256(8) == 0x1_0000_0000_0000_0000);
}


/// `new_m` agrees with `old_m` everywhere outside `a .. a + n`.
pub open spec fn unchanged_outside(old_m: Seq<u8>, new_m: Seq<u8>, a: int, n: nat) -> bool {
    &&& new_m.len() == old_m.len()
    &&& forall|i: int|
        0 <= i < old_m.len() && !(a <= i < a + n) ==> #[trigger] new_m[i] == old_m[i]
}

/// Two memories that agree on a byte range hold the same word there.
pub proof fn lemma_word_at_congr(m1: Seq<u8>, m2: Seq<u8>, a: int, w: nat)
    requires
        forall|i: int| a <= i < a + w ==> #[trigger] m1[i] == m2[i],
    ensures
        word_at(m1, a, w) == word_at(m2, a, w),
    decreases w,
{
    if w > 0 {
        lemma_word_at_congr(m1, m2, a + 1, (w - 1) as nat);
    }
}


/// The `n` bytes of `new_m` at `dst` equal the `n` bytes of `old_m` at
/// `src` — a region-local fact, with nothing said about other addresses.
pub open spec fn bytes_match(old_m: Seq<u8>, new_m: Seq<u8>, src: int, dst: int, n: nat) -> bool {
    forall|k: int| 0 <= k < n ==> #[trigger] new_m[dst + k] == old_m[src + k]
}

} // verus!
