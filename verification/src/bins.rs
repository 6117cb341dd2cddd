//! An append-only sequence of binary symbols ("bins"), packed into 64-bit words.
use crate::bits::{
    bit_at, fits, lemma_fits_concat, lemma_word_bits_byte, lemma_word_bits_concat,
    lemma_word_bits_index, lemma_word_bits_injective, repeat_bit, word_bits,
};
use vstd::prelude::*;
use vstd::std_specs::cmp::PartialEqSpec;

verus! {

/// The bits of full 64-bit words, in order, each most significant bit first.
pub open spec fn tail_bits(t: Seq<u64>) -> Seq<bool>
    decreases t.len(),
{
    if t.len() == 0 {
        Seq::empty()
    } else {
        tail_bits(t.drop_last()) + word_bits(t.last(), 64)
    }
}

pub proof fn lemma_tail_bits_len(t: Seq<u64>)
    ensures
        tail_bits(t).len() == 64 * t.len(),
    decreases t.len(),
{
    if t.len() > 0 {
        lemma_tail_bits_len(t.drop_last());
    }
}

/// The bits of word `o` of the tail.
pub proof fn lemma_tail_bits_word(t: Seq<u64>, o: int)
    requires
        0 <= o < t.len(),
    ensures
        tail_bits(t).subrange(64 * o, 64 * o + 64) == word_bits(t[o], 64),
    decreases t.len(),
{
    lemma_tail_bits_len(t.drop_last());
    if o < t.len() - 1 {
        lemma_tail_bits_word(t.drop_last(), o);
        assert(tail_bits(t).subrange(64 * o, 64 * o + 64) =~= tail_bits(t.drop_last()).subrange(
            64 * o,
            64 * o + 64,
        ));
    } else {
        assert(tail_bits(t).subrange(64 * o, 64 * o + 64) =~= word_bits(t[o], 64));
    }
}

pub proof fn lemma_tail_bits_push(t: Seq<u64>, w: u64)
    ensures
        tail_bits(t.push(w)) == tail_bits(t) + word_bits(w, 64),
{
    assert(t.push(w).drop_last() =~= t);
}

/// A bin sequence: `tail` holds full words of 64 bins, `head` the remaining ones.
/// A sequence of at most 64 bins is read from `head` alone.
pub struct Bins {
    pub head: u64,
    pub tail: Vec<u64>,
    pub num_bins: usize,
}

impl Bins {
    /// The number of bins held in `head` when the tail is in use.
    pub open spec fn head_len(self) -> int {
        self.num_bins - 64 * self.tail.len()
    }

    /// The packing invariant: every word of `tail` is full, and `head` holds
    /// between 1 and 64 bins (none when the sequence is empty) and no stray bits.
    pub open spec fn wf(self) -> bool {
        &&& (self.num_bins == 0 ==> self.tail.len() == 0 && self.head == 0)
        &&& (self.num_bins > 0 ==> self.tail.len() == (self.num_bins - 1) / 64)
        &&& fits(self.head, self.head_len() as nat)
    }

    /// A short sequence: at most 64 bins, all in `head`; the tail is not read.
    pub open spec fn short_ok(self) -> bool {
        &&& self.num_bins <= 64
        &&& fits(self.head, self.num_bins as nat)
    }

    /// `n` more bins can be appended while keeping the sequence readable.
    pub open spec fn appendable(self, n: nat) -> bool {
        ||| self.wf() && self.num_bins > 0
        ||| self.short_ok() && self.num_bins + n <= 64
    }

    /// The bins of the full packed representation.
    pub open spec fn packed(self) -> Seq<bool> {
        tail_bits(self.tail@) + word_bits(self.head, self.head_len() as nat)
    }
}

impl View for Bins {
    type V = Seq<bool>;

    open spec fn view(&self) -> Seq<bool> {
        if self.num_bins <= 64 {
            word_bits(self.head, self.num_bins as nat)
        } else {
            self.packed()
        }
    }
}

/// `new` is `old` with `bits` appended, as far as `old` could be appended to.
pub open spec fn appended(old: Bins, new: Bins, bits: Seq<bool>) -> bool {
    &&& new.num_bins == old.num_bins + bits.len()
    &&& old.appendable(bits.len()) ==> new@ == old@ + bits
    &&& old.wf() && old.num_bins > 0 ==> new.wf()
    &&& old.short_ok() && old.num_bins + bits.len() <= 64 ==> new.short_ok()
}

pub proof fn lemma_appended_nothing(a: Bins)
    ensures
        appended(a, a, Seq::empty()),
{
    assert(a@ + Seq::<bool>::empty() =~= a@);
}

/// Appending `x` then `y` appends `x + y`.
pub proof fn lemma_appended_trans(a: Bins, b: Bins, c: Bins, x: Seq<bool>, y: Seq<bool>)
    requires
        appended(a, b, x),
        appended(b, c, y),
    ensures
        appended(a, c, x + y),
{
    if a.appendable((x + y).len()) {
        assert(a.appendable(x.len()));
        assert(b.appendable(y.len()));
        assert(c@ =~= a@ + (x + y));
    }
}

proof fn lemma_div64(n: int)
    requires
        n > 0,
    ensures
        0 <= n - 1 - 64 * ((n - 1) / 64) < 64,
        n - 64 * ((n - 1) / 64) == (n - 1) % 64 + 1,
        (n % 64 == 0) == ((n - 1) % 64 == 63),
{
}

proof fn lemma_wf_len(b: Bins)
    requires
        b.wf(),
    ensures
        b@.len() == b.num_bins,
        b@ == b.packed(),
        b.num_bins > 0 ==> 1 <= b.head_len() <= 64 && b.head_len() == (b.num_bins - 1) % 64 + 1,
        b.num_bins == 0 ==> b.head_len() == 0,
        b.num_bins > 0 ==> (b.num_bins % 64 == 0 <==> b.head_len() == 64),
        b.num_bins <= 64 ==> b.tail.len() == 0 && b.head_len() == b.num_bins && b.short_ok(),
{
    lemma_tail_bits_len(b.tail@);
    if b.num_bins > 0 {
        lemma_div64(b.num_bins as int);
    }
    if b.num_bins <= 64 {
        assert(tail_bits(b.tail@) =~= Seq::<bool>::empty());
        assert(b.packed() =~= word_bits(b.head, b.num_bins as nat));
    }
}

proof fn lemma_single_bit(bin: bool)
    ensures
        word_bits(bin as u64, 1) == seq![bin],
        (bin as u64) < (1u64 << 1u64),
{
    assert(((bin as u64) >> 0u64) & 1u64 == (bin as u64) && (bin as u64) < (1u64 << 1u64)) by (bit_vector);
    assert(word_bits(bin as u64, 1) =~= seq![bin]);
}

impl Bins {
    /// An empty bin sequence.
    pub fn new() -> (b: Bins)
        ensures
            b.wf(),
            b@ == Seq::<bool>::empty(),
            b.num_bins == 0,
    {
        let b = Bins { head: 0, tail: vec![], num_bins: 0 };
        assert(0u64 < (1u64 << 0u64)) by (bit_vector);
        assert(b@ =~= Seq::<bool>::empty());
        b
    }

    /// Pushes the first bin of an empty sequence.
    pub fn push_initial_bin(&mut self, bin: bool)
        requires
            old(self).num_bins == 0,
            fits(old(self).head, 0),
        ensures
            final(self).wf() == (old(self).tail.len() == 0),
            final(self).short_ok(),
            final(self)@ == seq![bin],
            final(self).num_bins == 1,
            final(self).tail@ == old(self).tail@,
    {
        proof {
            let h = self.head;
            assert(h < (1u64 << 0u64) ==> ((h << 1u64) | (bin as u64)) == bin as u64)
                by (bit_vector);
        }
        self.head = (self.head << 1) | bin as u64;
        self.num_bins = 1;
        proof {
            lemma_single_bit(bin);
        }
    }

    /// Appends one bin. On an empty sequence the (zero) head word is moved into
    /// the tail first, so the result is only readable while it stays short.
    pub fn push_bin(&mut self, bin: bool)
        requires
            old(self).num_bins < usize::MAX,
        ensures
            final(self).num_bins == old(self).num_bins + 1,
            old(self).appendable(1) ==> final(self)@ == old(self)@.push(bin),
            old(self).wf() && old(self).num_bins > 0 ==> final(self).wf(),
            old(self).short_ok() && old(self).num_bins < 64 ==> final(self).short_ok(),
            appended(*old(self), *final(self), seq![bin]),
    {
        let ghost old_self = *self;
        proof {
            assert(old_self@.push(bin) =~= old_self@ + seq![bin]);
        }
        if self.num_bins % 64 == 0 {
            self.tail.push(self.head);
            self.head = bin as u64;
        } else {
            self.head = (self.head << 1) | bin as u64;
        }
        self.num_bins += 1;
        proof {
            lemma_single_bit(bin);
            if old_self.wf() && old_self.num_bins > 0 {
                lemma_wf_len(old_self);
                let n = old_self.head_len() as nat;
                if old_self.num_bins % 64 == 0 {
                    lemma_tail_bits_push(old_self.tail@, old_self.head);
                    lemma_div64(self.num_bins as int);
                    assert(self.head_len() == 1);
                } else {
                    lemma_word_bits_concat(old_self.head, bin as u64, n, 1);
                    lemma_fits_concat(old_self.head, bin as u64, n, 1);
                    lemma_div64(self.num_bins as int);
                    assert(self.head_len() == n + 1);
                }
                lemma_wf_len(*self);
                assert(self@ =~= old_self@.push(bin));
            }
            if old_self.short_ok() && old_self.num_bins < 64 {
                let n = old_self.num_bins as nat;
                if n == 0 {
                    assert(self@ =~= old_self@.push(bin));
                } else {
                    lemma_word_bits_concat(old_self.head, bin as u64, n, 1);
                    lemma_fits_concat(old_self.head, bin as u64, n, 1);
                    assert(self@ =~= old_self@.push(bin));
                }
            }
        }
    }

    /// Appends one bin; unlike `push_bin` this is also correct on an empty sequence.
    pub fn push_bin_with_initial_check(&mut self, bin: bool)
        requires
            old(self).num_bins < usize::MAX,
        ensures
            final(self).num_bins == old(self).num_bins + 1,
            old(self).wf() || (old(self).short_ok() && old(self).num_bins < 64) ==> final(self)@
                == old(self)@.push(bin),
            old(self).wf() ==> final(self).wf(),
            old(self).short_ok() && old(self).num_bins < 64 ==> final(self).short_ok(),
    {
        let ghost old_self = *self;
        if self.num_bins % 64 == 0 && self.num_bins > 0 {
            self.tail.push(self.head);
            self.head = bin as u64;
        } else {
            self.head = (self.head << 1) | bin as u64;
        }
        self.num_bins += 1;
        proof {
            lemma_single_bit(bin);
            if old_self.wf() {
                lemma_wf_len(old_self);
                let n = old_self.head_len() as nat;
                if old_self.num_bins % 64 == 0 && old_self.num_bins > 0 {
                    lemma_tail_bits_push(old_self.tail@, old_self.head);
                    lemma_div64(self.num_bins as int);
                    assert(self.head_len() == 1);
                } else {
                    lemma_word_bits_concat(old_self.head, bin as u64, n, 1);
                    lemma_fits_concat(old_self.head, bin as u64, n, 1);
                    lemma_div64(self.num_bins as int);
                    assert(self.head_len() == n + 1);
                }
                lemma_wf_len(*self);
                assert(self@ =~= old_self@.push(bin));
            }
            if old_self.short_ok() && old_self.num_bins < 64 {
                let n = old_self.num_bins as nat;
                lemma_word_bits_concat(old_self.head, bin as u64, n, 1);
                lemma_fits_concat(old_self.head, bin as u64, n, 1);
                assert(self@ =~= old_self@.push(bin));
            }
        }
    }

    /// Sets the first `size` bins of an empty sequence to the low bits of `bins`.
    pub fn push_initial_bins_with_size(&mut self, bins: u64, size: usize)
        requires
            old(self).num_bins == 0,
            size <= 64,
        ensures
            final(self).num_bins == size,
            final(self).head == bins,
            final(self).tail@ == old(self).tail@,
            fits(bins, size as nat) ==> final(self).short_ok() && final(self)@ == word_bits(
                bins,
                size as nat,
            ),
            old(self).wf() && fits(bins, size as nat) ==> final(self).wf(),
    {
        self.head = bins;
        self.num_bins = size;
        proof {
            if self.num_bins > 0 {
                lemma_div64(self.num_bins as int);
            }
            if size == 0 && fits(bins, 0) {
                assert(bins < (1u64 << 0u64) ==> bins == 0) by (bit_vector);
            }
        }
    }

    /// Appends the `size` low bits of `bins`, most significant first.
    pub fn push_bins_with_size(&mut self, bins: u64, size: usize)
        requires
            size <= 64,
            size < 64 || old(self).num_bins % 64 != 0,
            old(self).num_bins + size <= usize::MAX,
        ensures
            final(self).num_bins == old(self).num_bins + size,
            fits(bins, size as nat) && (old(self).wf() || (old(self).short_ok() && old(
                self,
            ).num_bins + size <= 64)) ==> final(self)@ == old(self)@ + word_bits(bins, size as nat),
            fits(bins, size as nat) && old(self).wf() ==> final(self).wf(),
            fits(bins, size as nat) && old(self).short_ok() && old(self).num_bins + size <= 64
                ==> final(self).short_ok(),
            fits(bins, size as nat) ==> appended(*old(self), *final(self), word_bits(bins, size as nat)),
    {
        let ghost old_self = *self;
        let r = if self.num_bins > 0 {
            (self.num_bins - 1) % 64 + 1
        } else {
            0
        };
        proof {
            if self.num_bins > 0 {
                lemma_div64(self.num_bins as int);
            }
        }
        if r + size > 64 {
            let n0 = 64 - r;
            let n1 = r + size - 64;
            assert(n1 < 64);
            let bins0 = bins >> n1;
            let n1_64 = n1 as u64;
            assert(((bins >> n1_64) << n1_64) <= bins) by (bit_vector);
            let bins1 = bins - (bins0 << n1);
            self.tail.push((self.head << n0) | bins0);
            self.head = bins1;
            self.num_bins += size;
            proof {
                if old_self.wf() && fits(bins, size as nat) {
                    lemma_wf_len(old_self);
                    let n0_64 = n0 as u64;
                    let size_64 = size as u64;
                    assert(bins == (((bins >> n1_64) << n1_64) | bins1) && bins1 < (1u64
                        << n1_64)) by (bit_vector)
                        requires
                            1 <= n1_64 < 64,
                            bins1 == (bins - ((bins >> n1_64) << n1_64)) as u64,
                    ;
                    if size < 64 {
                        assert((bins >> n1_64) < (1u64 << n0_64)) by (bit_vector)
                            requires
                                size_64 < 64,
                                n0_64 + n1_64 == size_64,
                                bins < (1u64 << size_64),
                        ;
                    } else {
                        assert((bins >> n1_64) < (1u64 << n0_64)) by (bit_vector)
                            requires
                                1 <= n1_64 < 64,
                                n0_64 + n1_64 == 64,
                        ;
                    }
                    lemma_word_bits_concat(bins0, bins1, n0 as nat, n1 as nat);
                    lemma_word_bits_concat(old_self.head, bins0, r as nat, n0 as nat);
                    lemma_tail_bits_push(old_self.tail@, (old_self.head << n0_64) | bins0);
                    lemma_div64(self.num_bins as int);
                    assert(self.tail.len() == (self.num_bins - 1) / 64);
                    assert(self.head_len() == n1);
                    lemma_wf_len(*self);
                    assert(self@ =~= old_self@ + word_bits(bins, size as nat));
                }
            }
        } else {
            self.head = (self.head << size) | bins;
            self.num_bins += size;
            proof {
                if fits(bins, size as nat) {
                    if old_self.wf() {
                        lemma_wf_len(old_self);
                        if self.num_bins > 0 {
                            lemma_div64(self.num_bins as int);
                        }
                        if old_self.num_bins == 0 {
                            assert(size < 64);
                        }
                        lemma_word_bits_concat(old_self.head, bins, r as nat, size as nat);
                        lemma_fits_concat(old_self.head, bins, r as nat, size as nat);
                        if self.num_bins == 0 {
                            let s64 = size as u64;
                            let h = old_self.head;
                            assert(s64 == 0 && h == 0 && bins < (1u64 << s64) ==> ((h << s64)
                                | bins) == 0) by (bit_vector);
                        }
                        assert(self.head_len() == r + size);
                        lemma_wf_len(*self);
                        assert(self@ =~= old_self@ + word_bits(bins, size as nat));
                    }
                    if old_self.short_ok() && old_self.num_bins + size <= 64 {
                        assert(size < 64);
                        lemma_word_bits_concat(old_self.head, bins, r as nat, size as nat);
                        lemma_fits_concat(old_self.head, bins, r as nat, size as nat);
                        assert(self@ =~= old_self@ + word_bits(bins, size as nat));
                    }
                }
            }
        }
    }

    /// Pads with zero bins up to the next multiple of 8.
    pub fn byte_align(&mut self)
        requires
            old(self).num_bins + 8 <= usize::MAX,
        ensures
            final(self).num_bins % 8 == 0,
            final(self).num_bins == old(self).num_bins + (8 - old(self).num_bins % 8) % 8,
            old(self).wf() || old(self).short_ok() ==> final(self)@ == old(self)@ + repeat_bit(
                false,
                ((8 - old(self).num_bins % 8) % 8) as nat,
            ),
            old(self).wf() ==> final(self).wf(),
            old(self).short_ok() ==> final(self).short_ok(),
            appended(
                *old(self),
                *final(self),
                repeat_bit(false, ((8 - old(self).num_bins % 8) % 8) as nat),
            ),
    {
        let ghost old_self = *self;
        if self.num_bins % 8 > 0 {
            let r = 8 - self.num_bins % 8;
            self.head <<= r;
            self.num_bins += r;
            proof {
                let h = old_self.head;
                let r64 = r as u64;
                assert((h << r64) == ((h << r64) | 0u64)) by (bit_vector);
                assert(0u64 < (1u64 << r64)) by (bit_vector)
                    requires
                        r64 < 8,
                ;
                assert forall|j: u64| j < 64 implies !bit_at(0, j) by {
                    assert((0u64 >> j) & 1u64 == 0u64) by (bit_vector);
                }
                assert(word_bits(0, r as nat) =~= repeat_bit(false, r as nat));
                if old_self.wf() {
                    lemma_wf_len(old_self);
                    lemma_div64(old_self.num_bins as int);
                    lemma_div64(self.num_bins as int);
                    let n = old_self.head_len() as nat;
                    assert(n + r <= 64);
                    lemma_word_bits_concat(h, 0, n, r as nat);
                    lemma_fits_concat(h, 0, n, r as nat);
                    assert(self.head_len() == n + r);
                    lemma_wf_len(*self);
                    assert(self@ =~= old_self@ + repeat_bit(false, r as nat));
                }
                if old_self.short_ok() {
                    let n = old_self.num_bins as nat;
                    assert(n + r <= 64);
                    lemma_word_bits_concat(h, 0, n, r as nat);
                    lemma_fits_concat(h, 0, n, r as nat);
                    assert(self@ =~= old_self@ + repeat_bit(false, r as nat));
                }
            }
        } else {
            proof {
                assert(old_self@ + repeat_bit(false, 0) =~= old_self@);
            }
        }
    }

    /// A reader over the bytes of this (byte-aligned) sequence, from the start.
    pub fn bytes(&self) -> (it: BinsByteIterator)
        ensures
            it.bins == self,
            it.index == 0,
    {
        BinsByteIterator { bins: self, index: 0 }
    }

    /// A reader over the bins of this sequence, from the start.
    pub fn into_iter(self) -> (it: BinsIntoIterator)
        ensures
            it.bins == self,
            it.index == 0,
    {
        BinsIntoIterator { bins: self, index: 0 }
    }
}

/// Reads a byte-aligned sequence of bins one byte at a time.
pub struct BinsByteIterator<'a> {
    pub bins: &'a Bins,
    pub index: usize,
}

/// Reads the bins of a sequence one at a time.
pub struct BinsIntoIterator {
    pub bins: Bins,
    pub index: usize,
}

proof fn lemma_view_head_part(b: Bins, a: int, len: int)
    requires
        b.wf(),
        64 * b.tail.len() <= a,
        0 <= len,
        a + len <= b.num_bins,
    ensures
        b@.subrange(a, a + len) == word_bits(b.head, b.head_len() as nat).subrange(
            a - 64 * b.tail.len(),
            a - 64 * b.tail.len() + len,
        ),
{
    lemma_wf_len(b);
    lemma_tail_bits_len(b.tail@);
    assert(b@.subrange(a, a + len) =~= word_bits(b.head, b.head_len() as nat).subrange(
        a - 64 * b.tail.len(),
        a - 64 * b.tail.len() + len,
    ));
}

proof fn lemma_view_tail_part(b: Bins, o: int, j: int, len: int)
    requires
        b.wf(),
        0 <= o < b.tail.len(),
        0 <= j,
        0 <= len,
        j + len <= 64,
    ensures
        b@.subrange(64 * o + j, 64 * o + j + len) == word_bits(b.tail@[o], 64).subrange(
            j,
            j + len,
        ),
{
    lemma_wf_len(b);
    lemma_tail_bits_len(b.tail@);
    lemma_tail_bits_word(b.tail@, o);
    assert(b@.subrange(64 * o + j, 64 * o + j + len) =~= tail_bits(b.tail@).subrange(
        64 * o,
        64 * o + 64,
    ).subrange(j, j + len));
}

impl<'a> BinsByteIterator<'a> {
    /// The next eight bins as a byte (first bin in the most significant bit).
    #[verifier::spinoff_prover]
    #[verifier::rlimit(100)]
    pub fn next(&mut self) -> (r: Option<u8>)
        requires
            old(self).bins.wf() || old(self).bins.short_ok(),
            old(self).bins.num_bins % 8 == 0,
            old(self).index % 8 == 0,
        ensures
            final(self).bins == old(self).bins,
            old(self).index >= old(self).bins.num_bins ==> r is None && final(self).index == old(
                self,
            ).index,
            old(self).index < old(self).bins.num_bins ==> r is Some && word_bits(
                r->0 as u64,
                8,
            ) == old(self).bins@.subrange(old(self).index as int, old(self).index + 8)
                && final(self).index == old(self).index + 8,
    {
        let ghost b = *self.bins;
        proof {
            if b.wf() {
                lemma_wf_len(b);
            }
        }
        if self.index >= self.bins.num_bins {
            None
        } else if self.bins.num_bins > 64 {
            let offset = self.index / 64;
            let index = self.index % 64;
            proof {
                lemma_div64(b.num_bins as int);
                assert(self.index + 8 <= b.num_bins);
                assert(self.index == 64 * offset + index);
            }
            let byte = if offset == self.bins.tail.len() {
                assert(index + 8 <= (self.bins.num_bins - 1) % 64 + 1);
                let byte = ((self.bins.head >> ((self.bins.num_bins - 1) % 64 + 1 - index - 8))
                    & 0xff) as u8;
                proof {
                    lemma_word_bits_byte(b.head, b.head_len() as nat, index as nat);
                    lemma_view_head_part(b, self.index as int, 8);
                }
                byte
            } else {
                let byte = ((self.bins.tail[offset] >> (64 - index - 8)) & 0xff) as u8;
                proof {
                    lemma_word_bits_byte(b.tail@[offset as int], 64, index as nat);
                    lemma_view_tail_part(b, offset as int, index as int, 8);
                }
                byte
            };
            self.index += 8;
            Some(byte)
        } else {
            let index = self.bins.num_bins - self.index - 8;
            let byte = ((self.bins.head >> index) & 0xff) as u8;
            proof {
                lemma_word_bits_byte(b.head, b.num_bins as nat, self.index as nat);
            }
            self.index += 8;
            Some(byte)
        }
    }
}

impl BinsIntoIterator {
    /// The next bin. Reading the last word of a sequence longer than 64 bins
    /// whose length is a multiple of 64 is not supported (its offset underflows).
    pub fn next(&mut self) -> (r: Option<bool>)
        requires
            old(self).bins.wf() || old(self).bins.short_ok(),
            old(self).index < old(self).bins.num_bins && old(self).bins.num_bins > 64
                && old(self).bins.num_bins % 64 == 0 ==> old(self).index / 64 < old(
                self,
            ).bins.tail.len(),
        ensures
            final(self).bins == old(self).bins,
            old(self).index >= old(self).bins.num_bins ==> r is None && final(self).index == old(
                self,
            ).index,
            old(self).index < old(self).bins.num_bins ==> r == Some(
                old(self).bins@[old(self).index as int],
            ) && final(self).index == old(self).index + 1,
    {
        let ghost b = self.bins;
        proof {
            if b.wf() {
                lemma_wf_len(b);
            }
            lemma_tail_bits_len(b.tail@);
        }
        if self.index >= self.bins.num_bins {
            None
        } else if self.bins.num_bins > 64 {
            let offset = self.index / 64;
            let index = self.index % 64;
            proof {
                lemma_div64(b.num_bins as int);
            }
            let bit = if offset == self.bins.tail.len() {
                let bit = (self.bins.head >> (self.bins.num_bins % 64 - index - 1)) & 1 > 0;
                proof {
                    lemma_word_bits_index(b.head, b.head_len() as nat, index as nat);
                }
                bit
            } else {
                let bit = (self.bins.tail[offset] >> (64 - index - 1)) & 1 > 0;
                proof {
                    lemma_tail_bits_word(b.tail@, offset as int);
                    lemma_word_bits_index(b.tail@[offset as int], 64, index as nat);
                    assert(b@[self.index as int] == tail_bits(b.tail@).subrange(
                        64 * offset,
                        64 * offset + 64,
                    )[index as int]);
                }
                bit
            };
            self.index += 1;
            Some(bit)
        } else {
            let index = self.bins.num_bins - self.index - 1;
            let bit = (self.bins.head >> index) & 1 > 0;
            proof {
                lemma_word_bits_index(b.head, b.num_bins as nat, self.index as nat);
            }
            self.index += 1;
            Some(bit)
        }
    }
}

impl Bins {
    /// The bins in order, read one at a time. Reading the last word of a sequence
    /// longer than 64 bins whose length is a multiple of 64 is not supported.
    pub fn collect(self) -> (v: Vec<bool>)
        requires
            self.wf() || self.short_ok(),
            !(self.num_bins > 64 && self.num_bins % 64 == 0),
        ensures
            v@ == self@,
    {
        let ghost b = self;
        proof {
            if b.wf() {
                lemma_wf_len(b);
            }
        }
        let mut it = self.into_iter();
        let mut v: Vec<bool> = Vec::new();
        loop
            invariant
                it.bins == b,
                b.wf() || b.short_ok(),
                !(b.num_bins > 64 && b.num_bins % 64 == 0),
                b@.len() == b.num_bins,
                it.index <= b.num_bins,
                v@ == b@.subrange(0, it.index as int),
            ensures
                v@ == b@,
            decreases b.num_bins - it.index,
        {
            let ghost i = it.index;
            match it.next() {
                Some(bin) => {
                    v.push(bin);
                    proof {
                        assert(b@.subrange(0, i + 1) =~= b@.subrange(0, i as int).push(bin));
                    }
                },
                None => {
                    proof {
                        assert(b@.subrange(0, b.num_bins as int) =~= b@);
                    }
                    break;
                },
            }
        }
        v
    }
}

impl PartialEq for Bins {
    fn eq(&self, other: &Bins) -> (r: bool) {
        if self.head != other.head || self.num_bins != other.num_bins {
            false
        } else {
            let n = if self.tail.len() < other.tail.len() {
                self.tail.len()
            } else {
                other.tail.len()
            };
            let mut i: usize = 0;
            while i < n
                invariant
                    n <= self.tail.len(),
                    n <= other.tail.len(),
                    n == self.tail.len() || n == other.tail.len(),
                    i <= n,
                    forall|j: int| 0 <= j < i ==> self.tail@[j] == other.tail@[j],
                decreases n - i,
            {
                if self.tail[i] != other.tail[i] {
                    return false;
                }
                i += 1;
            }
            true
        }
    }
}

impl vstd::std_specs::cmp::PartialEqSpecImpl for Bins {
    open spec fn obeys_eq_spec() -> bool {
        true
    }

    open spec fn eq_spec(&self, other: &Bins) -> bool {
        &&& self.head == other.head
        &&& self.num_bins == other.num_bins
        &&& forall|j: int|
            0 <= j < self.tail.len() && 0 <= j < other.tail.len() ==> self.tail@[j]
                == other.tail@[j]
    }
}

/// Two well-formed bin sequences compare equal exactly when they hold the same bins.
pub proof fn lemma_bins_eq_iff_same_bins(a: Bins, b: Bins)
    requires
        a.wf(),
        b.wf(),
    ensures
        a.eq_spec(&b) <==> a@ == b@,
{
    lemma_wf_len(a);
    lemma_wf_len(b);
    lemma_tail_bits_len(a.tail@);
    lemma_tail_bits_len(b.tail@);
    if a.eq_spec(&b) {
        assert(a.tail@ =~= b.tail@);
    }
    if a@ == b@ {
        assert(a.tail.len() == b.tail.len());
        assert forall|o: int| 0 <= o < a.tail.len() implies a.tail@[o] == b.tail@[o] by {
            lemma_tail_bits_word(a.tail@, o);
            lemma_tail_bits_word(b.tail@, o);
            assert(a@.subrange(64 * o, 64 * o + 64) =~= tail_bits(a.tail@).subrange(
                64 * o,
                64 * o + 64,
            ));
            assert(b@.subrange(64 * o, 64 * o + 64) =~= tail_bits(b.tail@).subrange(
                64 * o,
                64 * o + 64,
            ));
            assert(fits(a.tail@[o], 64));
            assert(fits(b.tail@[o], 64));
            lemma_word_bits_injective(a.tail@[o], b.tail@[o], 64);
        }
        let k = 64 * a.tail.len();
        assert(a@.subrange(k, a@.len() as int) =~= word_bits(a.head, a.head_len() as nat));
        assert(b@.subrange(k, b@.len() as int) =~= word_bits(b.head, b.head_len() as nat));
        lemma_word_bits_injective(a.head, b.head, a.head_len() as nat);
    }
}

} // verus!
