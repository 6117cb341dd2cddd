//! Packing of single bits into bytes for the output bitstream.
use crate::bits::{lemma_word_bits_concat, word_bits};
use vstd::prelude::*;

verus! {

/// The bits of `bytes`, each byte most significant bit first.
pub open spec fn bytes_bits(bytes: Seq<u8>) -> Seq<bool>
    decreases bytes.len(),
{
    if bytes.len() == 0 {
        Seq::empty()
    } else {
        bytes_bits(bytes.drop_last()) + word_bits(bytes.last() as u64, 8)
    }
}

/// Packs bits into bytes, most significant bit first. Completed bytes wait in
/// `output` until they are taken; the bits of a partial byte wait in `buf`.
pub struct BinaryWriter {
    pub output: Vec<u8>,
    pub buf: u8,
    pub index: usize,
}

impl BinaryWriter {
    /// At most seven bits wait in `buf`, none above them.
    pub open spec fn wf(self) -> bool {
        &&& self.index < 8
        &&& (self.buf as u64) < (1u64 << (self.index as u64))
    }

    /// Every bit written and not yet taken, in order.
    pub open spec fn written(self) -> Seq<bool> {
        bytes_bits(self.output@) + word_bits(self.buf as u64, self.index as nat)
    }

    /// A writer with nothing written.
    pub fn standard() -> (w: BinaryWriter)
        ensures
            w.wf(),
            w.written() == Seq::<bool>::empty(),
            w.output@ == Seq::<u8>::empty(),
    {
        let w = BinaryWriter { output: Vec::new(), buf: 0, index: 0 };
        assert(0u64 < (1u64 << 0u64)) by (bit_vector);
        assert(w.written() =~= Seq::<bool>::empty());
        w
    }

    /// Appends `bit`; a byte is completed after every eighth bit.
    pub fn write_bit(&mut self, bit: bool)
        requires
            old(self).wf(),
        ensures
            final(self).wf(),
            final(self).written() == old(self).written().push(bit),
            final(self).index == (old(self).index + 1) % 8,
            final(self).index == 0 ==> final(self).output@.len() == old(self).output@.len() + 1,
            final(self).index != 0 ==> final(self).output@ == old(self).output@,
    {
        let ghost b0 = self.buf as u64;
        let ghost n = self.index as nat;
        let b = bit as u8;
        let cur = self.buf;
        let nb = (cur << 1) | b;
        proof {
            let i64v = self.index as u64;
            assert((nb as u64) == ((b0 << 1u64) | (bit as u64)) && (nb as u64) < (1u64 << ((i64v + 1)
                as u64)) && (bit as u64) < (1u64 << 1u64) && (((bit as u64) >> 0u64) & 1u64 == 1u64)
                == bit) by (bit_vector)
                requires
                    i64v < 8,
                    b0 < (1u64 << i64v),
                    b0 == cur as u64,
                    nb == ((cur << 1u8) | b),
                    b == bit as u8,
            ;
            lemma_word_bits_concat(b0, bit as u64, n, 1);
            assert(word_bits(bit as u64, 1) =~= seq![bit]);
            assert(word_bits(nb as u64, n + 1) =~= word_bits(b0, n).push(bit));
        }
        self.buf = nb;
        self.index += 1;
        if self.index == 8 {
            self.index = 0;
            let ghost out0 = self.output@;
            self.output.push(self.buf);
            self.buf = 0;
            proof {
                assert(self.output@.drop_last() =~= out0);
                assert(word_bits(0, 0) =~= Seq::<bool>::empty());
                assert(0u64 < (1u64 << 0u64)) by (bit_vector);
                assert(bytes_bits(old(self).output@) + word_bits(b0, n).push(bit) =~= bytes_bits(
                    self.output@,
                ) + word_bits(0, 0));
            }
        } else {
            proof {
                assert(bytes_bits(old(self).output@) + word_bits(b0, n).push(bit) =~= bytes_bits(
                    self.output@,
                ) + word_bits(nb as u64, (n + 1) as nat));
            }
        }
    }

    /// Appends every bit of `bits`, in order.
    pub fn write_bits(&mut self, bits: &Vec<bool>)
        requires
            old(self).wf(),
        ensures
            final(self).wf(),
            final(self).written() == old(self).written() + bits@,
    {
        let mut i: usize = 0;
        while i < bits.len()
            invariant
                i <= bits@.len(),
                self.wf(),
                self.written() == old(self).written() + bits@.subrange(0, i as int),
            decreases bits@.len() - i,
        {
            self.write_bit(bits[i]);
            i += 1;
            proof {
                assert(old(self).written() + bits@.subrange(0, i as int) =~= (old(self).written()
                    + bits@.subrange(0, i - 1)).push(bits@[i - 1]));
            }
        }
        assert(bits@.subrange(0, bits@.len() as int) =~= bits@);
    }

    /// Completes the partial byte with zero bits.
    pub fn _byte_align(&mut self)
        requires
            old(self).wf(),
        ensures
            final(self).wf(),
            final(self).index == 0,
            final(self).written() == old(self).written() + Seq::new(
                (if old(self).index > 0 {
                    8 - old(self).index
                } else {
                    0
                }) as nat,
                |i: int| false,
            ),
    {
        let rem = if self.index > 0 {
            8 - self.index
        } else {
            0
        };
        let mut k: usize = 0;
        while k < rem
            invariant
                k <= rem,
                rem == 0 || old(self).index + rem == 8,
                self.wf(),
                k < rem ==> self.index == old(self).index + k,
                k == rem ==> self.index == 0,
                self.written() == old(self).written() + Seq::new(k as nat, |i: int| false),
            decreases rem - k,
        {
            self.write_bit(false);
            k += 1;
            proof {
                assert(old(self).written() + Seq::new(k as nat, |i: int| false) =~= (old(self).written()
                    + Seq::new((k - 1) as nat, |i: int| false)).push(false));
            }
        }
    }

    /// Hands over the completed bytes, which leave the writer.
    pub fn take_output(&mut self) -> (bytes: Vec<u8>)
        requires
            old(self).wf(),
        ensures
            final(self).wf(),
            bytes_bits(bytes@) + final(self).written() == old(self).written(),
            bytes@ == old(self).output@,
            final(self).output@ == Seq::<u8>::empty(),
            final(self).buf == old(self).buf,
            final(self).index == old(self).index,
    {
        let mut bytes: Vec<u8> = Vec::new();
        std::mem::swap(&mut bytes, &mut self.output);
        proof {
            assert(bytes_bits(Seq::<u8>::empty()) == Seq::<bool>::empty());
            assert(bytes_bits(bytes@) + (Seq::<bool>::empty() + word_bits(self.buf as u64, self.index as nat))
                =~= old(self).written());
        }
        bytes
    }
}

/// The bits of a byte sequence are eight per byte, byte `j` giving bits `8j` to
/// `8j + 7`.
proof fn lemma_bytes_bits_layout(bytes: Seq<u8>)
    ensures
        bytes_bits(bytes).len() == 8 * bytes.len(),
        forall|j: int|
            0 <= j < bytes.len() ==> #[trigger] bytes_bits(bytes).subrange(8 * j, 8 * j + 8) == word_bits(
                bytes[j] as u64,
                8,
            ),
    decreases bytes.len(),
{
    if bytes.len() > 0 {
        let init = bytes.drop_last();
        lemma_bytes_bits_layout(init);
        assert forall|j: int| 0 <= j < bytes.len() implies #[trigger] bytes_bits(bytes).subrange(8 * j, 8 * j + 8)
            == word_bits(bytes[j] as u64, 8) by {
            if j < init.len() {
                assert(bytes_bits(bytes).subrange(8 * j, 8 * j + 8) =~= bytes_bits(init).subrange(8 * j, 8 * j + 8));
                assert(init[j] == bytes[j]);
            } else {
                assert(bytes_bits(bytes).subrange(8 * j, 8 * j + 8) =~= word_bits(bytes.last() as u64, 8));
            }
        }
    }
}

/// Bits pack into bytes most significant bit first: once the bits `bits` have been
/// written to a writer that started empty (one `write_bit` call each, or through
/// `write_bits`), it holds `bits.len() / 8` completed bytes, byte `j` made of bits
/// `8j` to `8j + 7` with the first of them its top bit, and the last
/// `bits.len() % 8` bits wait for their byte.
pub proof fn law_bits_pack_into_bytes_msb_first(w: BinaryWriter, bits: Seq<bool>)
    requires
        w.wf(),
        w.written() == bits,
    ensures
        w.output@.len() == bits.len() / 8,
        w.index == bits.len() % 8,
        forall|j: int|
            0 <= j < w.output@.len() ==> #[trigger] word_bits(w.output@[j] as u64, 8) == bits.subrange(8 * j, 8 * j + 8),
        forall|j: int, i: int|
            0 <= j < w.output@.len() && 0 <= i < 8 ==> (#[trigger] bit_of(w.output@[j], i)) == bits[8 * j + i],
{
    lemma_bytes_bits_layout(w.output@);
    let ob = bytes_bits(w.output@);
    assert(bits.len() == 8 * w.output@.len() + w.index);
    assert forall|j: int| 0 <= j < w.output@.len() implies #[trigger] word_bits(w.output@[j] as u64, 8) == bits.subrange(
        8 * j,
        8 * j + 8,
    ) by {
        assert(ob.subrange(8 * j, 8 * j + 8) == word_bits(w.output@[j] as u64, 8));
        assert(bits.subrange(8 * j, 8 * j + 8) =~= ob.subrange(8 * j, 8 * j + 8));
    }
    assert forall|j: int, i: int| 0 <= j < w.output@.len() && 0 <= i < 8 implies (#[trigger] bit_of(w.output@[j], i))
        == bits[8 * j + i] by {
        assert(word_bits(w.output@[j] as u64, 8) == bits.subrange(8 * j, 8 * j + 8));
        assert(word_bits(w.output@[j] as u64, 8)[i] == bits[8 * j + i]);
    }
}

/// Bit `i` (0 the most significant) of byte `b`.
pub open spec fn bit_of(b: u8, i: int) -> bool {
    word_bits(b as u64, 8)[i]
}

} // verus!
