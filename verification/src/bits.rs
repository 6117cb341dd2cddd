//! Bit-level views of machine words, shared by the bitstream writers.
use vstd::arithmetic::power2::{lemma2_to64, lemma_pow2_pos, lemma_pow2_unfold, pow2};
use vstd::bits::{lemma_u64_pow2_no_overflow, lemma_u64_shl_is_mul};
use vstd::prelude::*;

verus! {

/// Bit `j` (counted from the least significant end) of `w`.
pub open spec fn bit_at(w: u64, j: u64) -> bool {
    (w >> j) & 1u64 == 1u64
}

/// The `n` low bits of `w`, most significant first.
pub open spec fn word_bits(w: u64, n: nat) -> Seq<bool> {
    Seq::new(n, |i: int| bit_at(w, (n - 1 - i) as u64))
}

/// `v` is representable in `n` bits.
pub open spec fn fits(v: u64, n: nat) -> bool {
    n >= 64 || v < (1u64 << (n as u64))
}

/// `n` copies of `b`.
pub open spec fn repeat_bit(b: bool, n: nat) -> Seq<bool> {
    Seq::new(n, |i: int| b)
}

proof fn lemma_bit_shl_or_high(h: u64, b: u64, j: u64, k: u64)
    by (bit_vector)
    requires
        j + k < 64,
        k < 64,
        b < (1u64 << k),
    ensures
        (((h << k) | b) >> (j + k)) & 1u64 == (h >> j) & 1u64,
{
}

proof fn lemma_bit_shl_or_low(h: u64, b: u64, j: u64, k: u64)
    by (bit_vector)
    requires
        j < k,
        k < 64,
    ensures
        (((h << k) | b) >> j) & 1u64 == (b >> j) & 1u64,
{
}

/// Appending the bits of `b` (k bits) below the bits of `h` (n bits).
pub proof fn lemma_word_bits_concat(h: u64, b: u64, n: nat, k: nat)
    requires
        n + k <= 64,
        k < 64,
        b < (1u64 << (k as u64)),
    ensures
        word_bits((h << (k as u64)) | b, n + k) == word_bits(h, n) + word_bits(b, k),
{
    let x = (h << (k as u64)) | b;
    let lhs = word_bits(x, n + k);
    let rhs = word_bits(h, n) + word_bits(b, k);
    assert forall|i: int| 0 <= i < n + k implies lhs[i] == rhs[i] by {
        if i < n {
            let j = (n - 1 - i) as u64;
            lemma_bit_shl_or_high(h, b, j, k as u64);
            assert((n + k - 1 - i) as u64 == j + k as u64);
        } else {
            let j = (n + k - 1 - i) as u64;
            lemma_bit_shl_or_low(h, b, j, k as u64);
        }
    }
    assert(lhs =~= rhs);
}

proof fn lemma_shl_or_bound(h: u64, b: u64, n: u64, k: u64)
    by (bit_vector)
    requires
        n + k < 64,
        h < (1u64 << n),
        b < (1u64 << k),
    ensures
        ((h << k) | b) < (1u64 << (n + k)),
{
}

/// The bound on a value is kept when bits are appended below it.
pub proof fn lemma_fits_concat(h: u64, b: u64, n: nat, k: nat)
    requires
        n + k <= 64,
        k < 64,
        fits(h, n),
        b < (1u64 << (k as u64)),
    ensures
        fits((h << (k as u64)) | b, n + k),
{
    if n + k < 64 {
        lemma_shl_or_bound(h, b, n as u64, k as u64);
    }
}

/// A byte read out of a word at a bit offset gives eight consecutive bits of its view.
pub proof fn lemma_word_bits_byte(w: u64, n: nat, a: nat)
    requires
        a + 8 <= n <= 64,
    ensures
        word_bits(w, n).subrange(a as int, (a + 8) as int) == word_bits(
            (((w >> ((n - a - 8) as u64)) & 0xffu64) as u8) as u64,
            8,
        ),
{
    let s = (n - a - 8) as u64;
    let byte = (((w >> s) & 0xffu64) as u8) as u64;
    assert forall|i: int| 0 <= i < 8 implies word_bits(w, n).subrange(a as int, (a + 8) as int)[i]
        == word_bits(byte, 8)[i] by {
        let t = (7 - i) as u64;
        assert((byte >> t) & 1u64 == (w >> (s + t)) & 1u64) by (bit_vector)
            requires
                t < 8,
                s + t < 64,
                byte == (((w >> s) & 0xffu64) as u8) as u64,
        ;
        assert((n - 1 - (a + i)) as u64 == s + t);
    }
    assert(word_bits(w, n).subrange(a as int, (a + 8) as int) =~= word_bits(byte, 8));
}

/// A single bit read out of a word is the corresponding element of its view.
pub proof fn lemma_word_bits_index(w: u64, n: nat, a: nat)
    requires
        a < n <= 64,
    ensures
        word_bits(w, n)[a as int] == ((w >> ((n - a - 1) as u64)) & 1u64 > 0u64),
{
    let s = (n - a - 1) as u64;
    assert(((w >> s) & 1u64 == 1u64) == ((w >> s) & 1u64 > 0u64)) by (bit_vector);
}

/// Two values that fit in `n` bits and have the same `n`-bit view are equal.
pub proof fn lemma_word_bits_injective(w: u64, v: u64, n: nat)
    requires
        n <= 64,
        fits(w, n),
        fits(v, n),
        word_bits(w, n) == word_bits(v, n),
    ensures
        w == v,
    decreases n,
{
    if n == 0 {
        assert((w < (1u64 << 0u64) ==> w == 0) && (v < (1u64 << 0u64) ==> v == 0)) by (bit_vector);
    } else {
        let m = (n - 1) as nat;
        assert(word_bits(w, n)[m as int] == word_bits(v, n)[m as int]);
        assert(word_bits(w, n)[m as int] == bit_at(w, 0u64));
        assert(word_bits(v, n)[m as int] == bit_at(v, 0u64));
        assert forall|i: int| 0 <= i < m implies word_bits(w >> 1u64, m)[i] == word_bits(
            v >> 1u64,
            m,
        )[i] by {
            let t = (m - 1 - i) as u64;
            assert(((w >> 1u64) >> t) & 1u64 == (w >> (t + 1)) & 1u64 && ((v >> 1u64) >> t) & 1u64
                == (v >> (t + 1)) & 1u64) by (bit_vector)
                requires
                    t < 63,
            ;
            assert((n - 1 - i) as u64 == t + 1);
            assert(word_bits(w, n)[i] == bit_at(w, (t + 1) as u64));
            assert(word_bits(v, n)[i] == bit_at(v, (t + 1) as u64));
            assert(word_bits(w, n)[i] == word_bits(v, n)[i]);
            assert(word_bits(w >> 1u64, m)[i] == bit_at(w >> 1u64, t));
            assert(word_bits(v >> 1u64, m)[i] == bit_at(v >> 1u64, t));
        }
        assert(word_bits(w >> 1u64, m) =~= word_bits(v >> 1u64, m));
        if n == 64 {
            assert((w >> 1u64) < (1u64 << 63u64) && (v >> 1u64) < (1u64 << 63u64)) by (bit_vector);
        } else {
            let n64 = n as u64;
            assert((w >> 1u64) < (1u64 << ((n64 - 1) as u64)) && (v >> 1u64) < (1u64 << ((n64
                - 1) as u64))) by (bit_vector)
                requires
                    1 <= n64 < 64,
                    w < (1u64 << n64),
                    v < (1u64 << n64),
            ;
        }
        lemma_word_bits_injective(w >> 1u64, v >> 1u64, m);
        assert(((w >> 0u64) & 1u64 == 1u64) == ((v >> 0u64) & 1u64 == 1u64));
        assert((w >> 1u64) == (v >> 1u64) && (((w >> 0u64) & 1u64 == 1u64) == ((v >> 0u64) & 1u64
            == 1u64)) ==> w == v) by (bit_vector);
    }
}

/// The number of binary digits of `x` (0 for 0).
pub open spec fn bit_length(x: nat) -> nat
    decreases x,
{
    if x == 0 {
        0
    } else {
        1 + bit_length(x / 2)
    }
}

/// A positive `x` lies between the powers of two around its bit length.
pub proof fn lemma_bit_length_bounds(x: nat)
    requires
        x > 0,
    ensures
        bit_length(x) >= 1,
        pow2((bit_length(x) - 1) as nat) <= x < pow2(bit_length(x)),
    decreases x,
{
    if x == 1 {
        assert(bit_length(0) == 0);
        lemma2_to64();
    } else {
        lemma_bit_length_bounds(x / 2);
        let b = bit_length(x / 2);
        assert(bit_length(x) == b + 1);
        lemma_pow2_unfold(b);
        lemma_pow2_unfold(b + 1);
    }
}

/// The bit length is the exponent of the smallest power of two above the value.
pub proof fn lemma_bit_length_unique(x: nat, n: nat)
    requires
        x > 0,
        pow2((n - 1) as nat) <= x < pow2(n),
        n >= 1,
    ensures
        bit_length(x) == n,
{
    lemma_bit_length_bounds(x);
    let b = bit_length(x);
    if b < n {
        vstd::arithmetic::power2::lemma_pow2_strictly_increases(b, (n - 1) as nat);
    }
    if b > n {
        vstd::arithmetic::power2::lemma_pow2_strictly_increases(n, (b - 1) as nat);
    }
}

/// `1 << n` as a power of two.
pub proof fn lemma_shl_one(n: u64)
    requires
        n < 64,
    ensures
        (1u64 << n) == pow2(n as nat),
        pow2(n as nat) > 0,
{
    lemma_u64_pow2_no_overflow(n as nat);
    lemma_u64_shl_is_mul(1, n);
}

/// The view of zero is all zeros.
pub proof fn lemma_word_bits_zero(n: nat)
    requires
        n <= 64,
    ensures
        word_bits(0, n) == repeat_bit(false, n),
        fits(0, n),
{
    assert forall|j: u64| j < 64 implies !bit_at(0, j) by {
        assert((0u64 >> j) & 1u64 == 0u64) by (bit_vector);
    }
    assert(word_bits(0, n) =~= repeat_bit(false, n));
    if n < 64 {
        let n64 = n as u64;
        assert(0u64 < (1u64 << n64)) by (bit_vector)
            requires
                n64 < 64,
        ;
    }
}

/// The view of `2^n - 1` is `n` ones.
pub proof fn lemma_word_bits_ones(n: nat)
    requires
        n < 64,
    ensures
        word_bits(((1u64 << (n as u64)) - 1) as u64, n) == repeat_bit(true, n),
        fits(((1u64 << (n as u64)) - 1) as u64, n),
{
    let n64 = n as u64;
    assert(1u64 <= (1u64 << n64)) by (bit_vector)
        requires
            n64 < 64,
    ;
    let x = ((1u64 << n64) - 1) as u64;
    assert forall|i: int| 0 <= i < n implies word_bits(x, n)[i] == true by {
        let j = (n - 1 - i) as u64;
        assert((x >> j) & 1u64 == 1u64) by (bit_vector)
            requires
                j < n64,
                n64 < 64,
                x == ((1u64 << n64) - 1) as u64,
        ;
    }
    assert(word_bits(x, n) =~= repeat_bit(true, n));
    assert(x < (1u64 << n64)) by (bit_vector)
        requires
            n64 < 64,
            x == ((1u64 << n64) - 1) as u64,
    ;
}

/// Shifting a value left by one appends a zero bit.
pub proof fn lemma_word_bits_shl1(x: u64, n: nat)
    requires
        n < 64,
    ensures
        word_bits(x << 1u64, n + 1) == word_bits(x, n).push(false),
        fits(x, n) ==> fits(x << 1u64, n + 1),
{
    assert((x << 1u64) == ((x << 1u64) | 0u64) && 0u64 < (1u64 << 1u64)) by (bit_vector);
    if fits(x, n) {
        lemma_fits_concat(x, 0, n, 1);
    }
    lemma_word_bits_concat(x, 0, n, 1);
    lemma_word_bits_zero(1);
    assert(word_bits(x, n) + word_bits(0, 1) =~= word_bits(x, n).push(false));
}

/// `fits` for a value below `2^n`.
pub proof fn lemma_fits_pow2(v: u64, n: nat)
    requires
        n <= 64,
        v < pow2(n),
    ensures
        fits(v, n),
{
    if n < 64 {
        lemma_shl_one(n as u64);
    }
}

/// The bit length of a machine word.
pub fn msb_u64(v: u64) -> (msb: u64)
    ensures
        msb == bit_length(v as nat),
        msb <= 64,
{
    let mut msb: u64 = 0;
    let mut v = v;
    let ghost orig = v;
    proof {
        lemma_bit_length_le_64(orig as nat);
    }
    while v > 0
        invariant
            msb + bit_length(v as nat) == bit_length(orig as nat),
            bit_length(orig as nat) <= 64,
        decreases v,
    {
        assert((v >> 1u64) == v / 2) by (bit_vector);
        msb += 1;
        v >>= 1;
    }
    msb
}

proof fn lemma_bit_length_le_64(x: nat)
    requires
        x <= u64::MAX,
    ensures
        bit_length(x) <= 64,
{
    if x > 0 {
        lemma_bit_length_bounds(x);
        lemma2_to64();
        vstd::arithmetic::power2::lemma2_to64_rest();
        if bit_length(x) > 64 {
            vstd::arithmetic::power2::lemma_pow2_strictly_increases(64, (bit_length(x) - 1) as nat);
        }
    }
}

/// The base-2 logarithm of a positive value, rounded down.
pub fn ilog2(v: usize) -> (r: u32)
    requires
        v > 0,
    ensures
        r == bit_length(v as nat) - 1,
        r < 64,
        pow2(r as nat) <= v < pow2((r + 1) as nat),
{
    proof {
        lemma_bit_length_bounds(v as nat);
    }
    let m = msb_u64(v as u64);
    (m - 1) as u32
}

/// The bit length of `2^m - 1` is `m`.
pub proof fn lemma_bit_length_mask(m: nat)
    requires
        m >= 1,
    ensures
        bit_length((pow2(m) - 1) as nat) == m,
{
    lemma_pow2_unfold(m);
    lemma_pow2_pos((m - 1) as nat);
    lemma_bit_length_unique((pow2(m) - 1) as nat, m);
}

/// `1 << n` on `usize` as a power of two.
pub proof fn lemma_usize_shl_one(n: usize)
    requires
        n < usize::BITS,
    ensures
        (1usize << n) == pow2(n as nat),
        0 < pow2(n as nat) <= usize::MAX,
{
    vstd::bits::lemma_usize_pow2_no_overflow(n as nat);
    vstd::bits::lemma_usize_shl_is_mul(1, n);
}

/// `v >> k` on `usize` as a division by a power of two.
pub proof fn lemma_usize_shr(v: usize, k: usize)
    requires
        k < usize::BITS,
    ensures
        (v >> k) == v as nat / pow2(k as nat),
        (v >> k) * pow2(k as nat) <= v,
        v - (v >> k) * pow2(k as nat) < pow2(k as nat),
{
    vstd::bits::lemma_usize_shr_is_div(v, k);
    vstd::bits::lemma_usize_pow2_no_overflow(k as nat);
    vstd::arithmetic::div_mod::lemma_fundamental_div_mod(v as int, pow2(k as nat) as int);
    vstd::arithmetic::div_mod::lemma_mod_bound(v as int, pow2(k as nat) as int);
    vstd::arithmetic::mul::lemma_mul_is_commutative((v >> k) as int, pow2(k as nat) as int);
}

/// `2^BITS` is one past the largest `usize`.
pub proof fn lemma_pow2_usize_bits()
    ensures
        pow2(usize::BITS as nat) == usize::MAX + 1,
        pow2((usize::BITS - 1) as nat) * 2 == usize::MAX + 1,
{
    lemma2_to64();
    vstd::arithmetic::power2::lemma2_to64_rest();
}


/// Powers of two grow with the exponent.
pub proof fn lemma_pow2_le(e1: nat, e2: nat)
    requires
        e1 <= e2,
    ensures
        pow2(e1) <= pow2(e2),
{
    if e1 < e2 {
        vstd::arithmetic::power2::lemma_pow2_strictly_increases(e1, e2);
    }
}


/// A larger value has at least as many binary digits.
pub proof fn lemma_bit_length_mono(a: nat, b: nat)
    requires
        a <= b,
    ensures
        bit_length(a) <= bit_length(b),
    decreases b,
{
    if a > 0 {
        lemma_bit_length_mono(a / 2, b / 2);
    }
}

} // verus!
