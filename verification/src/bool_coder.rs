//! Binarization of syntax element values and the CABAC arithmetic coding engine.
use crate::bins::{appended, lemma_appended_nothing, lemma_appended_trans, Bins};
use crate::bits::{
    bit_length, fits, ilog2, lemma_bit_length_bounds, lemma_bit_length_mask,
    lemma_bit_length_unique, lemma_fits_pow2, lemma_shl_one, lemma_usize_shl_one,
    lemma_pow2_usize_bits, lemma_usize_shr, lemma_word_bits_ones, lemma_word_bits_shl1, lemma_word_bits_zero, msb_u64,
    repeat_bit, word_bits,
};
use vstd::arithmetic::power2::{lemma_pow2_unfold, pow2};
use crate::cabac_contexts::{
    ctx_init_values_at, ctx_shift_idx_at, ctx_table_len, ctx_to_bin_process, lemma_ctx_tables_shape, spec_ctx_init_values,
    spec_ctx_shift_idx, spec_ctx_to_bin_process, BinProcess, CabacContext, NUM_CTX_TABLES,
};
use crate::common::SliceType;
use vstd::prelude::*;

verus! {

/// 0-th order Exp-Golomb code of `v`: `n` zeros, a one, and the `n` low bits of
/// `v + 1`, where `2^n <= v + 1 < 2^(n+1)`.
pub open spec fn ue_bits(v: u64) -> Seq<bool> {
    let n = (bit_length((v + 1) as nat) - 1) as nat;
    repeat_bit(false, n) + seq![true] + word_bits((v + 1 - pow2(n)) as u64, n)
}

/// The code number of a signed value: positive values map to odd numbers,
/// the others to even numbers.
pub open spec fn se_code(v: i64) -> u64 {
    if v > 0 {
        (2 * v - 1) as u64
    } else {
        (-2 * v) as u64
    }
}

/// The number of bins of a fixed-length code whose largest value is `c_max`.
pub open spec fn fl_len(c_max: usize) -> nat {
    bit_length(c_max as nat)
}

/// Fixed-length code of `v` for largest value `c_max`.
pub open spec fn fl_bits(v: usize, c_max: usize) -> Seq<bool> {
    word_bits(v as u64, fl_len(c_max))
}

/// Truncated Rice code of `v` with largest value `c_max` and Rice parameter `k`:
/// the prefix `v >> k` in truncated unary form, then (below `c_max`) the `k` low bits.
pub open spec fn tr_bits(v: nat, c_max: nat, k: nat) -> Seq<bool> {
    let p = v / pow2(k);
    let pm = c_max / pow2(k);
    (if p < pm {
        repeat_bit(true, p).push(false)
    } else {
        repeat_bit(true, pm)
    }) + (if c_max > v && k > 0 {
        word_bits((v % pow2(k)) as u64, k)
    } else {
        Seq::empty()
    })
}

/// Truncated binary code of `v` with largest value `c_max`: with `n = c_max + 1`,
/// `k = floor(log2(n))` and `u = 2^(k+1) - n`, the first `u` values take `k` bits
/// and the others `k + 1` bits, offset by `u`.
pub open spec fn tb_bits(v: nat, c_max: nat) -> Seq<bool> {
    let n = c_max + 1;
    let k = (bit_length(n) - 1) as nat;
    let u = pow2(k + 1) - n;
    if v < u {
        word_bits(v as u64, k)
    } else {
        word_bits((v + u) as u64, k + 1)
    }
}

/// k-th order Exp-Golomb code of `v`: a one for each power `2^k, 2^(k+1), ...` that
/// is taken away, a zero, then the remainder in the final number of bits.
pub open spec fn egk_bits(v: nat, k: nat) -> Seq<bool>
    decreases v,
{
    if v >= pow2(k) {
        proof {
            vstd::arithmetic::power2::lemma_pow2_pos(k);
        }
        seq![true] + egk_bits((v - pow2(k)) as nat, k + 1)
    } else {
        seq![false] + word_bits(v as u64, k)
    }
}

/// The largest order reached by the k-th order Exp-Golomb code of `v`.
pub open spec fn egk_final_k(v: nat, k: nat) -> nat
    decreases v,
{
    if v >= pow2(k) {
        proof {
            vstd::arithmetic::power2::lemma_pow2_pos(k);
        }
        egk_final_k((v - pow2(k)) as nat, k + 1)
    } else {
        k
    }
}

/// The number of leading ones of the limited k-th order Exp-Golomb code with
/// prefix value `code`, counted from `p`.
pub open spec fn lim_pre(code: nat, p: nat, max_pre_ext_len: nat) -> nat
    decreases max_pre_ext_len - p,
{
    if p < max_pre_ext_len && code > pow2(p + 1) - 2 {
        lim_pre(code, p + 1, max_pre_ext_len)
    } else {
        p
    }
}

/// Limited k-th order Exp-Golomb code of `v`: a unary prefix of at most
/// `max_pre_ext_len` ones (ended by a zero when shorter), then the escape value
/// `v - (2^pre - 1) * 2^k` in `pre + k` bits, or in `trunc_suffix_len` bits when
/// the prefix reached its limit.
pub open spec fn legk_bits(v: nat, k: nat, max_pre_ext_len: nat, trunc_suffix_len: nat) -> Seq<
    bool,
> {
    let pre = lim_pre(v / pow2(k), 0, max_pre_ext_len);
    let esc = if pre == max_pre_ext_len {
        trunc_suffix_len
    } else {
        pre + k
    };
    repeat_bit(true, pre) + (if pre == max_pre_ext_len {
        Seq::empty()
    } else {
        seq![false]
    }) + word_bits((v - (pow2(pre) - 1) * pow2(k)) as u64, esc)
}

/// Binarization of `intra_chroma_pred_mode`: `0` for 4, else `1` and two bits.
pub open spec fn icpm_bits(v: usize) -> Seq<bool> {
    if v == 4 {
        seq![false]
    } else {
        seq![true] + word_bits(v as u64, 2)
    }
}

/// Binarization of `inter_pred_idc` for a block of the given size.
pub open spec fn ipi_bits(v: usize, cb_width: usize, cb_height: usize) -> Seq<bool> {
    if v == 2 {
        seq![true]
    } else if cb_width + cb_height > 12 {
        seq![false, v == 1]
    } else {
        seq![v == 1]
    }
}

/// Binarization of `cu_qp_delta_abs`: a truncated Rice prefix of at most 5,
/// then a 0-th order Exp-Golomb suffix for larger values.
pub open spec fn cu_qp_delta_abs_bits(v: nat) -> Seq<bool> {
    tr_bits(if v < 5 {
        v
    } else {
        5
    }, 5, 0) + (if v > 4 {
        egk_bits((v - 5) as nat, 0)
    } else {
        Seq::empty()
    })
}

/// The bins of `val` under a binarization process.
pub open spec fn bin_process_bits(bp: BinProcess, val: usize) -> Seq<bool> {
    match bp {
        BinProcess::FL(c_max) => fl_bits(val, c_max),
        BinProcess::TB(c_max) => tb_bits(val as nat, c_max as nat),
        BinProcess::TR(c_max, c_rice_param) => tr_bits(
            val as nat,
            c_max as nat,
            c_rice_param as nat,
        ),
        BinProcess::EG(k) => egk_bits(val as nat, k as nat),
        BinProcess::ETC => Seq::empty(),
    }
}

/// A binarization process that the generic binarizer can run on `val`.
pub open spec fn bin_process_ok(bp: BinProcess, val: usize) -> bool {
    match bp {
        BinProcess::FL(c_max) => 0 < c_max && fl_len(c_max) < 64,
        BinProcess::TB(c_max) => 0 < c_max && bit_length((c_max + 1) as nat) < usize::BITS && val
            + c_max + 1 <= usize::MAX,
        BinProcess::TR(c_max, c_rice_param) => c_rice_param < usize::BITS && c_max as nat / pow2(
            c_rice_param as nat,
        ) < 64,
        BinProcess::EG(k) => k < usize::BITS && val + pow2(k as nat) <= usize::MAX,
        BinProcess::ETC => false,
    }
}

/// The values for which a binarization process gives its code.
pub open spec fn bin_process_domain(bp: BinProcess, val: usize) -> bool {
    match bp {
        BinProcess::FL(c_max) => fits(val as u64, fl_len(c_max)),
        BinProcess::TB(c_max) => val <= c_max,
        _ => true,
    }
}

/// The state of the CABAC engine and its context variables.
pub struct BoolCoder {
    pub cabac_p_state_idx: Vec<Vec<Vec<[u16; 2]>>>,
    pub cabac_table_state_sync: Vec<Vec<Vec<[u16; 2]>>>,
    pub cabac_ivl_curr_range: u16,
    pub cabac_ivl_offset: u16,
    pub cabac_first_bit_flag: bool,
    pub cabac_bits_outstanding: usize,
}

pub proof fn lemma_ue_len(v: u64)
    requires
        v < u64::MAX,
    ensures
        ue_bits(v).len() == 2 * (bit_length((v + 1) as nat) - 1) + 1,
        bit_length((v + 1) as nat) <= 64,
        ue_bits(v).len() <= 127,
{
    lemma_bit_length_bounds((v + 1) as nat);
    let b = bit_length((v + 1) as nat);
    if b > 64 {
        vstd::arithmetic::power2::lemma2_to64_rest();
        vstd::arithmetic::power2::lemma_pow2_strictly_increases(64, (b - 1) as nat);
    }
}

impl BoolCoder {
    /// Appends the 0-th order Exp-Golomb code of `v`.
    pub fn encode_unsigned_exp_golomb(&mut self, out_bins: &mut Bins, v: u64)
        requires
            v < u64::MAX,
            old(out_bins).num_bins + 127 <= usize::MAX,
        ensures
            appended(*old(out_bins), *final(out_bins), ue_bits(v)),
            *final(self) == *old(self),
    {
        proof {
            lemma_ue_len(v);
            lemma_bit_length_bounds((v + 1) as nat);
        }
        if v == 0 {
            out_bins.push_bin(true);
            proof {
                assert(bit_length(0) == 0);
                assert(bit_length(1) == 1);
                lemma_word_bits_zero(0);
                assert(ue_bits(v) =~= seq![true]);
            }
        } else {
            let ghost a0 = *out_bins;
            let n = msb_u64(v + 1) - 1;
            proof {
                lemma_shl_one(n);
            }
            let r = (1u64 << n) - 1;
            let golomb = v - r;
            proof {
                lemma_pow2_unfold((n + 1) as nat);
                assert(golomb < pow2(n as nat));
                lemma_word_bits_zero(n as nat);
                lemma_fits_pow2(golomb, n as nat);
            }
            out_bins.push_bins_with_size(0, n as usize);
            let ghost a1 = *out_bins;
            out_bins.push_bin(true);
            let ghost a2 = *out_bins;
            out_bins.push_bins_with_size(golomb, n as usize);
            proof {
                lemma_appended_trans(a0, a1, a2, repeat_bit(false, n as nat), seq![true]);
                lemma_appended_trans(
                    a0,
                    a2,
                    *out_bins,
                    repeat_bit(false, n as nat) + seq![true],
                    word_bits(golomb, n as nat),
                );
            }
        }
    }

    /// Appends the signed Exp-Golomb code of `v`.
    pub fn encode_signed_exp_golomb(&mut self, out_bins: &mut Bins, v: i64)
        requires
            v > i64::MIN,
            old(out_bins).num_bins + 127 <= usize::MAX,
        ensures
            appended(*old(out_bins), *final(out_bins), ue_bits(se_code(v))),
            *final(self) == *old(self),
    {
        if v == 0 {
            out_bins.push_bin(true);
            proof {
                assert(bit_length(0) == 0);
                assert(bit_length(1) == 1);
                lemma_word_bits_zero(0);
                assert(ue_bits(0) =~= seq![true]);
            }
        } else {
            let sign = (v < 0) as u64;
            let abs = (if v < 0 {
                -v
            } else {
                v
            }) as u64;
            let code = (abs - 1) * 2 + 1 + sign;
            self.encode_unsigned_exp_golomb(out_bins, code);
        }
    }

    /// Appends the fixed-length code of `symbol_val` for largest value `c_max`.
    pub fn encode_fixed_length(&self, out_bins: &mut Bins, symbol_val: usize, c_max: usize)
        requires
            c_max > 0,
            fl_len(c_max) < 64 || old(out_bins).num_bins % 64 != 0,
            old(out_bins).num_bins + 64 <= usize::MAX,
        ensures
            final(out_bins).num_bins == old(out_bins).num_bins + fl_len(c_max),
            fits(symbol_val as u64, fl_len(c_max)) ==> appended(
                *old(out_bins),
                *final(out_bins),
                fl_bits(symbol_val, c_max),
            ),
    {
        let fixed_length = ilog2(c_max) + 1;
        out_bins.push_bins_with_size(symbol_val as u64, fixed_length as usize);
    }

    /// The fixed-length code of `symbol_val` for largest value `c_max`, appended to a vector.
    pub fn encode_fixed_length_to_vec(
        &self,
        out_bins: &mut Vec<bool>,
        symbol_val: usize,
        c_max: usize,
    )
        requires
            c_max > 0,
        ensures
            final(out_bins)@ == old(out_bins)@ + fl_bits(symbol_val, c_max),
    {
        let fixed_length = ilog2(c_max) + 1;
        let ghost start = out_bins@;
        let mut i = fixed_length;
        while i > 0
            invariant
                i <= fixed_length,
                fixed_length == fl_len(c_max),
                fixed_length <= 64,
                out_bins@ == start + fl_bits(symbol_val, c_max).subrange(
                    0,
                    fixed_length - i,
                ),
            decreases i,
        {
            i -= 1;
            let b = (symbol_val as u64 >> i) & 1 == 1;
            out_bins.push(b);
            proof {
                assert(fl_bits(symbol_val, c_max)[fixed_length - i - 1] == b);
                assert(fl_bits(symbol_val, c_max).subrange(0, fixed_length - i) =~= fl_bits(
                    symbol_val,
                    c_max,
                ).subrange(0, fixed_length - i - 1).push(b));
            }
        }
        proof {
            assert(fl_bits(symbol_val, c_max).subrange(0, fixed_length as int) =~= fl_bits(
                symbol_val,
                c_max,
            ));
        }
    }

    /// Appends the truncated Rice code of `symbol_val`.
    pub fn encode_trancated_rice(
        &self,
        out_bins: &mut Bins,
        symbol_val: usize,
        c_max: usize,
        c_rice_param: usize,
    )
        requires
            c_rice_param < usize::BITS,
            c_max as nat / pow2(c_rice_param as nat) < 64,
            old(out_bins).num_bins + 128 <= usize::MAX,
        ensures
            appended(
                *old(out_bins),
                *final(out_bins),
                tr_bits(symbol_val as nat, c_max as nat, c_rice_param as nat),
            ),
    {
        let ghost a0 = *out_bins;
        let ghost k = c_rice_param as nat;
        proof {
            lemma_usize_shr(symbol_val, c_rice_param);
            lemma_usize_shr(c_max, c_rice_param);
        }
        let prefix_val = symbol_val >> c_rice_param;
        let ghost prefix_bits;
        if prefix_val < c_max >> c_rice_param {
            proof {
                lemma_word_bits_ones(prefix_val as nat);
                lemma_word_bits_shl1(((1u64 << (prefix_val as u64)) - 1) as u64, prefix_val as nat);
                prefix_bits = repeat_bit(true, prefix_val as nat).push(false);
            }
            out_bins.push_bins_with_size(((1u64 << (prefix_val as u64)) - 1) << 1, prefix_val + 1);
        } else {
            let n = c_max >> c_rice_param;
            proof {
                lemma_word_bits_ones(n as nat);
                prefix_bits = repeat_bit(true, n as nat);
            }
            out_bins.push_bins_with_size((1u64 << (n as u64)) - 1, n);
        }
        let ghost a1 = *out_bins;
        if c_max > symbol_val && c_rice_param > 0 {
            proof {
                lemma_usize_shl_one(c_rice_param);
                vstd::bits::lemma_usize_shl_is_mul(prefix_val, c_rice_param);
                lemma_bit_length_mask(k);
                vstd::arithmetic::div_mod::lemma_fundamental_div_mod(
                    symbol_val as int,
                    pow2(k) as int,
                );
                vstd::arithmetic::mul::lemma_mul_is_commutative(prefix_val as int, pow2(k) as int);
            }
            let suffix_val = symbol_val - (prefix_val << c_rice_param);
            proof {
                assert(suffix_val == symbol_val as nat % pow2(k));
                lemma_fits_pow2(suffix_val as u64, k);
            }
            self.encode_fixed_length(out_bins, suffix_val, (1 << c_rice_param) - 1);
            proof {
                lemma_appended_trans(a0, a1, *out_bins, prefix_bits, word_bits(suffix_val as u64, k));
            }
        } else {
            proof {
                assert(prefix_bits + Seq::<bool>::empty() =~= prefix_bits);
            }
        }
    }

    /// The truncated Rice code of `symbol_val` as a vector.
    pub fn encode_trancated_rice_to_vec(
        &self,
        symbol_val: usize,
        c_max: usize,
        c_rice_param: usize,
    ) -> (out_bins: Vec<bool>)
        requires
            c_rice_param < usize::BITS,
        ensures
            out_bins@ == tr_bits(symbol_val as nat, c_max as nat, c_rice_param as nat),
    {
        let ghost k = c_rice_param as nat;
        proof {
            lemma_usize_shr(symbol_val, c_rice_param);
            lemma_usize_shr(c_max, c_rice_param);
        }
        let prefix_val = symbol_val >> c_rice_param;
        let mut out_bins = if prefix_val < c_max >> c_rice_param {
            let mut out_bins = vec![true; prefix_val];
            proof {
                assert(out_bins@ =~= repeat_bit(true, prefix_val as nat));
            }
            out_bins.push(false);
            out_bins
        } else {
            let out_bins = vec![true; c_max >> c_rice_param];
            proof {
                assert(out_bins@ =~= repeat_bit(true, (c_max >> c_rice_param) as nat));
            }
            out_bins
        };
        let ghost prefix_bits = out_bins@;
        if c_max > symbol_val && c_rice_param > 0 {
            proof {
                lemma_usize_shl_one(c_rice_param);
                vstd::bits::lemma_usize_shl_is_mul(prefix_val, c_rice_param);
                lemma_bit_length_mask(k);
                vstd::arithmetic::div_mod::lemma_fundamental_div_mod(
                    symbol_val as int,
                    pow2(k) as int,
                );
                vstd::arithmetic::mul::lemma_mul_is_commutative(prefix_val as int, pow2(k) as int);
            }
            let suffix_val = symbol_val - (prefix_val << c_rice_param);
            proof {
                assert(suffix_val == symbol_val as nat % pow2(k));
            }
            self.encode_fixed_length_to_vec(&mut out_bins, suffix_val, (1 << c_rice_param) - 1);
        } else {
            proof {
                assert(prefix_bits + Seq::<bool>::empty() =~= prefix_bits);
            }
        }
        out_bins
    }

    /// Appends the truncated binary code of `syn_val`.
    pub fn encode_trancated_binary(&self, out_bins: &mut Bins, syn_val: usize, c_max: usize)
        requires
            c_max < usize::MAX,
            bit_length((c_max + 1) as nat) < usize::BITS,
            c_max > 0 || syn_val > 0,
            syn_val < pow2(bit_length((c_max + 1) as nat)) - (c_max + 1) || syn_val + pow2(
                bit_length((c_max + 1) as nat),
            ) - (c_max + 1) <= usize::MAX,
            old(out_bins).num_bins + 64 <= usize::MAX,
        ensures
            final(out_bins).num_bins == old(out_bins).num_bins + tb_bits(
                syn_val as nat,
                c_max as nat,
            ).len(),
            syn_val <= c_max ==> appended(
                *old(out_bins),
                *final(out_bins),
                tb_bits(syn_val as nat, c_max as nat),
            ),
    {
        let n = c_max + 1;
        let k = ilog2(n);
        let ghost kk = k as nat;
        proof {
            lemma_bit_length_bounds(n as nat);
            lemma_usize_shl_one((k + 1) as usize);
            lemma_usize_shl_one(k as usize);
            lemma_pow2_unfold(kk + 1);
        }
        let u = (1usize << (k + 1)) - n;
        if syn_val < u {
            proof {
                if kk == 0 {
                    vstd::arithmetic::power2::lemma2_to64();
                }
                lemma_bit_length_mask(kk);
                if syn_val <= c_max {
                    lemma_fits_pow2(syn_val as u64, kk);
                }
            }
            self.encode_fixed_length(out_bins, syn_val, (1usize << k) - 1);
        } else {
            proof {
                lemma_bit_length_mask(kk + 1);
                if syn_val <= c_max {
                    lemma_fits_pow2((syn_val + u) as u64, kk + 1);
                }
            }
            self.encode_fixed_length(out_bins, syn_val + u, (1usize << (k + 1)) - 1);
        }
    }

    /// Appends the k-th order Exp-Golomb code of `symbol_val`.
    pub fn encode_kth_order_exp_golomb(&self, out_bins: &mut Bins, symbol_val: usize, k: usize)
        requires
            k < usize::BITS,
            symbol_val + pow2(k as nat) <= usize::MAX,
            old(out_bins).num_bins + 2 * usize::BITS + 1 <= usize::MAX,
        ensures
            appended(*old(out_bins), *final(out_bins), egk_bits(symbol_val as nat, k as nat)),
    {
        let ghost a0 = *out_bins;
        let ghost k0 = k as nat;
        let mut abs_v = symbol_val;
        let mut k = k;
        let ghost mut ones: Seq<bool> = Seq::empty();
        proof {
            lemma_usize_shl_one(k);
            lemma_appended_nothing(a0);
            lemma_egk_len(symbol_val as nat, k0);
        }
        loop
            invariant_except_break
                k0 <= k < usize::BITS,
                abs_v + pow2(k as nat) <= usize::MAX,
                abs_v + pow2(k as nat) == symbol_val + pow2(k0),
                ones == repeat_bit(true, (k - k0) as nat),
                egk_bits(symbol_val as nat, k0) == ones + egk_bits(abs_v as nat, k as nat),
                appended(a0, *out_bins, ones),
                egk_final_k(symbol_val as nat, k0) == egk_final_k(abs_v as nat, k as nat),
            invariant
                egk_final_k(symbol_val as nat, k0) < usize::BITS,
                a0.num_bins + 2 * usize::BITS + 1 <= usize::MAX,
            ensures
                appended(a0, *out_bins, egk_bits(symbol_val as nat, k0)),
            decreases abs_v,
        {
            proof {
                lemma_usize_shl_one(k);
            }
            if abs_v >= 1 << k {
                let ghost before = *out_bins;
                out_bins.push_bin(true);
                proof {
                    lemma_appended_trans(a0, before, *out_bins, ones, seq![true]);
                    ones = ones + seq![true];
                    assert(ones =~= repeat_bit(true, (k + 1 - k0) as nat));
                    lemma_pow2_unfold((k + 1) as nat);
                    assert(egk_bits(symbol_val as nat, k0) =~= ones + egk_bits(
                        (abs_v - pow2(k as nat)) as nat,
                        (k + 1) as nat,
                    ));
                }
                abs_v -= 1 << k;
                k += 1;
                proof {
                    if k >= usize::BITS {
                        lemma_pow2_usize_bits();
                        assert(false);
                    }
                }
            } else {
                let ghost before = *out_bins;
                out_bins.push_bin(false);
                let ghost mut done: Seq<bool> = ones + seq![false];
                proof {
                    lemma_appended_trans(a0, before, *out_bins, ones, seq![false]);
                    assert(egk_bits(symbol_val as nat, k0) == done + word_bits(abs_v as u64, k as nat));
                }
                let ghost kf = k;
                while k > 0
                    invariant
                        k <= kf < usize::BITS,
                        kf <= 64,
                        kf == egk_final_k(symbol_val as nat, k0),
                        egk_bits(symbol_val as nat, k0) == done + word_bits(abs_v as u64, kf as nat).subrange(
                            (kf - k) as int,
                            kf as int,
                        ),
                        appended(a0, *out_bins, done),
                        done.len() + k <= 2 * usize::BITS + 1,
                        a0.num_bins + 2 * usize::BITS + 1 <= usize::MAX,
                    decreases k,
                {
                    k -= 1;
                    let b = (abs_v >> k) & 1 == 1;
                    let ghost before = *out_bins;
                    out_bins.push_bin(b);
                    proof {
                        assert((abs_v as u64 >> (k as u64)) & 1u64 == 1u64 <==> (abs_v >> k) & 1
                            == 1) by (bit_vector)
                            requires
                                k < 64,
                        ;
                        lemma_appended_trans(a0, before, *out_bins, done, seq![b]);
                        assert(word_bits(abs_v as u64, kf as nat)[kf - k - 1] == b);
                        done = done + seq![b];
                    }
                }
                proof {
                    assert(word_bits(abs_v as u64, kf as nat).subrange(kf as int, kf as int)
                        =~= Seq::<bool>::empty());
                    assert(done + Seq::<bool>::empty() =~= done);
                }
                break;
            }
        }
    }

    /// Appends the limited k-th order Exp-Golomb code of `symbol_val`.
    pub fn encode_limited_kth_order_exp_golomb(
        &self,
        out_bins: &mut Bins,
        symbol_val: usize,
        k: usize,
        max_pre_ext_len: usize,
        trunc_suffix_len: usize,
    )
        requires
            k < usize::BITS,
            max_pre_ext_len < usize::BITS,
            max_pre_ext_len + k <= usize::BITS,
            trunc_suffix_len <= usize::BITS,
            old(out_bins).num_bins + 4 * usize::BITS <= usize::MAX,
        ensures
            appended(
                *old(out_bins),
                *final(out_bins),
                legk_bits(
                    symbol_val as nat,
                    k as nat,
                    max_pre_ext_len as nat,
                    trunc_suffix_len as nat,
                ),
            ),
    {
        let ghost a0 = *out_bins;
        proof {
            lemma_usize_shr(symbol_val, k);
            lemma_appended_nothing(a0);
        }
        let code_value = symbol_val >> k;
        let mut pre_ext_len: usize = 0;
        proof {
            vstd::arithmetic::power2::lemma2_to64();
            lemma_shl2_pow2(0);
        }
        while pre_ext_len < max_pre_ext_len && code_value > (2 << pre_ext_len) - 2
            invariant
                pre_ext_len <= max_pre_ext_len < usize::BITS,
                pre_ext_len + 1 < usize::BITS ==> (2usize << pre_ext_len) == pow2(
                    (pre_ext_len + 1) as nat,
                ) && pow2((pre_ext_len + 1) as nat) >= 2,
                code_value == symbol_val as nat / pow2(k as nat),
                lim_pre(code_value as nat, 0, max_pre_ext_len as nat) == lim_pre(
                    code_value as nat,
                    pre_ext_len as nat,
                    max_pre_ext_len as nat,
                ),
                code_value + 1 >= pow2(pre_ext_len as nat),
                appended(a0, *out_bins, repeat_bit(true, pre_ext_len as nat)),
                a0.num_bins + 4 * usize::BITS <= usize::MAX,
            decreases max_pre_ext_len - pre_ext_len,
        {
            proof {
                lemma_usize_shl_one((pre_ext_len + 1) as usize);
                lemma_pow2_unfold((pre_ext_len + 1) as nat);
                vstd::bits::lemma_usize_shl_is_mul(2, pre_ext_len);
            }
            let ghost before = *out_bins;
            pre_ext_len += 1;
            out_bins.push_bin(true);
            proof {
                if pre_ext_len + 1 < usize::BITS {
                    lemma_shl2_pow2(pre_ext_len);
                }
                lemma_appended_trans(
                    a0,
                    before,
                    *out_bins,
                    repeat_bit(true, (pre_ext_len - 1) as nat),
                    seq![true],
                );
                assert(repeat_bit(true, (pre_ext_len - 1) as nat) + seq![true] =~= repeat_bit(
                    true,
                    pre_ext_len as nat,
                ));
            }
        }
        proof {
            if pre_ext_len < max_pre_ext_len {
                lemma_usize_shl_one((pre_ext_len + 1) as usize);
                lemma_pow2_unfold((pre_ext_len + 1) as nat);
                vstd::bits::lemma_usize_shl_is_mul(2, pre_ext_len);
            }
            assert(lim_pre(code_value as nat, pre_ext_len as nat, max_pre_ext_len as nat)
                == pre_ext_len);
        }
        let ghost prefix = *out_bins;
        let mut escape_length = if pre_ext_len == max_pre_ext_len {
            trunc_suffix_len
        } else {
            out_bins.push_bin(false);
            pre_ext_len + k
        };
        let ghost head_bits = repeat_bit(true, pre_ext_len as nat) + (if pre_ext_len
            == max_pre_ext_len {
            Seq::<bool>::empty()
        } else {
            seq![false]
        });
        proof {
            if pre_ext_len == max_pre_ext_len {
                assert(head_bits =~= repeat_bit(true, pre_ext_len as nat));
            } else {
                lemma_appended_trans(
                    a0,
                    prefix,
                    *out_bins,
                    repeat_bit(true, pre_ext_len as nat),
                    seq![false],
                );
            }
            lemma_usize_shl_one(pre_ext_len);
            lemma_usize_shl_one(k);
            vstd::arithmetic::mul::lemma_mul_inequality(
                (pow2(pre_ext_len as nat) - 1) as int,
                code_value as int,
                pow2(k as nat) as int,
            );
            vstd::arithmetic::div_mod::lemma_fundamental_div_mod(
                symbol_val as int,
                pow2(k as nat) as int,
            );
            vstd::arithmetic::mul::lemma_mul_is_commutative(
                code_value as int,
                pow2(k as nat) as int,
            );
            vstd::arithmetic::div_mod::lemma_mod_bound(symbol_val as int, pow2(k as nat) as int);
            vstd::bits::lemma_usize_shl_is_mul(((1usize << pre_ext_len) - 1) as usize, k);
        }
        let symbol_val = symbol_val - (((1 << pre_ext_len) - 1) << k);
        let ghost esc = escape_length;
        let ghost mut done: Seq<bool> = head_bits;
        while escape_length > 0
            invariant
                escape_length <= esc <= usize::BITS,
                appended(a0, *out_bins, done),
                done == head_bits + word_bits(symbol_val as u64, esc as nat).subrange(
                    0,
                    (esc - escape_length) as int,
                ),
                head_bits.len() + esc <= 3 * usize::BITS,
                a0.num_bins + 4 * usize::BITS <= usize::MAX,
            decreases escape_length,
        {
            escape_length -= 1;
            let b = (symbol_val >> escape_length) & 1 == 1;
            let ghost before = *out_bins;
            out_bins.push_bin(b);
            proof {
                assert((symbol_val as u64 >> (escape_length as u64)) & 1u64 == 1u64 <==> (symbol_val
                    >> escape_length) & 1 == 1) by (bit_vector)
                    requires
                        escape_length < 64,
                ;
                lemma_appended_trans(a0, before, *out_bins, done, seq![b]);
                assert(word_bits(symbol_val as u64, esc as nat)[esc - escape_length - 1] == b);
                done = done + seq![b];
                assert(done =~= head_bits + word_bits(symbol_val as u64, esc as nat).subrange(
                    0,
                    (esc - escape_length) as int,
                ));
            }
        }
        proof {
            assert(word_bits(symbol_val as u64, esc as nat).subrange(0, esc as int) =~= word_bits(
                symbol_val as u64,
                esc as nat,
            ));
        }
    }

    /// The limited k-th order Exp-Golomb code of `symbol_val` as a vector.
    pub fn encode_limited_kth_order_exp_golomb_to_vec(
        &self,
        symbol_val: usize,
        k: usize,
        max_pre_ext_len: usize,
        trunc_suffix_len: usize,
    ) -> (out_bins: Vec<bool>)
        requires
            k < usize::BITS,
            max_pre_ext_len < usize::BITS,
            max_pre_ext_len + k <= usize::BITS,
            trunc_suffix_len <= usize::BITS,
        ensures
            out_bins@ == legk_bits(
                symbol_val as nat,
                k as nat,
                max_pre_ext_len as nat,
                trunc_suffix_len as nat,
            ),
    {
        let mut out_bins: Vec<bool> = vec![];
        proof {
            lemma_usize_shr(symbol_val, k);
        }
        let code_value = symbol_val >> k;
        let mut pre_ext_len: usize = 0;
        proof {
            vstd::arithmetic::power2::lemma2_to64();
            lemma_shl2_pow2(0);
            assert(out_bins@ =~= repeat_bit(true, 0));
        }
        while pre_ext_len < max_pre_ext_len && code_value > (2 << pre_ext_len) - 2
            invariant
                pre_ext_len <= max_pre_ext_len < usize::BITS,
                pre_ext_len + 1 < usize::BITS ==> (2usize << pre_ext_len) == pow2(
                    (pre_ext_len + 1) as nat,
                ) && pow2((pre_ext_len + 1) as nat) >= 2,
                code_value == symbol_val as nat / pow2(k as nat),
                lim_pre(code_value as nat, 0, max_pre_ext_len as nat) == lim_pre(
                    code_value as nat,
                    pre_ext_len as nat,
                    max_pre_ext_len as nat,
                ),
                code_value + 1 >= pow2(pre_ext_len as nat),
                out_bins@ == repeat_bit(true, pre_ext_len as nat),
            decreases max_pre_ext_len - pre_ext_len,
        {
            proof {
                lemma_usize_shl_one((pre_ext_len + 1) as usize);
                lemma_pow2_unfold((pre_ext_len + 1) as nat);
            }
            pre_ext_len += 1;
            out_bins.push(true);
            proof {
                if pre_ext_len + 1 < usize::BITS {
                    lemma_shl2_pow2(pre_ext_len);
                }
                assert(out_bins@ =~= repeat_bit(true, pre_ext_len as nat));
            }
        }
        proof {
            if pre_ext_len < max_pre_ext_len {
                lemma_usize_shl_one((pre_ext_len + 1) as usize);
                lemma_pow2_unfold((pre_ext_len + 1) as nat);
            }
            assert(lim_pre(code_value as nat, pre_ext_len as nat, max_pre_ext_len as nat)
                == pre_ext_len);
        }
        let mut escape_length = if pre_ext_len == max_pre_ext_len {
            trunc_suffix_len
        } else {
            out_bins.push(false);
            pre_ext_len + k
        };
        let ghost head_bits = out_bins@;
        proof {
            assert(head_bits =~= repeat_bit(true, pre_ext_len as nat) + (if pre_ext_len
                == max_pre_ext_len {
                Seq::<bool>::empty()
            } else {
                seq![false]
            }));
            lemma_usize_shl_one(pre_ext_len);
            lemma_usize_shl_one(k);
            vstd::arithmetic::mul::lemma_mul_inequality(
                (pow2(pre_ext_len as nat) - 1) as int,
                code_value as int,
                pow2(k as nat) as int,
            );
            vstd::arithmetic::div_mod::lemma_fundamental_div_mod(
                symbol_val as int,
                pow2(k as nat) as int,
            );
            vstd::arithmetic::mul::lemma_mul_is_commutative(
                code_value as int,
                pow2(k as nat) as int,
            );
            vstd::arithmetic::div_mod::lemma_mod_bound(symbol_val as int, pow2(k as nat) as int);
            vstd::bits::lemma_usize_shl_is_mul(((1usize << pre_ext_len) - 1) as usize, k);
        }
        let symbol_val = symbol_val - (((1 << pre_ext_len) - 1) << k);
        let ghost esc = escape_length;
        while escape_length > 0
            invariant
                escape_length <= esc <= usize::BITS,
                out_bins@ == head_bits + word_bits(symbol_val as u64, esc as nat).subrange(
                    0,
                    (esc - escape_length) as int,
                ),
            decreases escape_length,
        {
            escape_length -= 1;
            let b = (symbol_val >> escape_length) & 1 == 1;
            out_bins.push(b);
            proof {
                assert((symbol_val as u64 >> (escape_length as u64)) & 1u64 == 1u64 <==> (symbol_val
                    >> escape_length) & 1 == 1) by (bit_vector)
                    requires
                        escape_length < 64,
                ;
                assert(word_bits(symbol_val as u64, esc as nat)[esc - escape_length - 1] == b);
                assert(out_bins@ =~= head_bits + word_bits(symbol_val as u64, esc as nat).subrange(
                    0,
                    (esc - escape_length) as int,
                ));
            }
        }
        proof {
            assert(word_bits(symbol_val as u64, esc as nat).subrange(0, esc as int) =~= word_bits(
                symbol_val as u64,
                esc as nat,
            ));
        }
        out_bins
    }

    /// Appends the binarization of `intra_chroma_pred_mode` (0 to 4).
    pub fn encode_intra_chroma_pred_mode(&self, out_bins: &mut Bins, intra_chroma_pred_mode: usize)
        requires
            intra_chroma_pred_mode <= 4,
            old(out_bins).num_bins + 3 <= usize::MAX,
        ensures
            appended(*old(out_bins), *final(out_bins), icpm_bits(intra_chroma_pred_mode)),
    {
        proof {
            let v = intra_chroma_pred_mode as u64;
            if v < 4 {
                assert(v < (1u64 << 2u64) && ((1u64 << 2u64) | v) == 4 + v && ((1u64 >> 0u64) & 1u64)
                    == 1u64 && (4 + v) < (1u64 << 3u64)) by (bit_vector)
                    requires
                        v < 4,
                ;
                assert(word_bits(1, 1) =~= seq![true]);
                crate::bits::lemma_word_bits_concat(1, v, 1, 2);
            } else {
                assert(((0u64 >> 0u64) & 1u64) == 0u64) by (bit_vector);
                assert(word_bits(0, 1) =~= seq![false]);
                lemma_word_bits_zero(1);
            }
        }
        match intra_chroma_pred_mode {
            0 => out_bins.push_bins_with_size(0b100, 3),
            1 => out_bins.push_bins_with_size(0b101, 3),
            2 => out_bins.push_bins_with_size(0b110, 3),
            3 => out_bins.push_bins_with_size(0b111, 3),
            _ => out_bins.push_bin(false),
        }
    }

    /// Appends the binarization of `inter_pred_idc` (0 to 2) for a block of the given size.
    pub fn encode_inter_pred_idc(
        &self,
        out_bins: &mut Bins,
        inter_pred_idc: usize,
        cb_width: usize,
        cb_height: usize,
    )
        requires
            inter_pred_idc <= 2,
            cb_width + cb_height <= usize::MAX,
            old(out_bins).num_bins + 2 <= usize::MAX,
        ensures
            appended(
                *old(out_bins),
                *final(out_bins),
                ipi_bits(inter_pred_idc, cb_width, cb_height),
            ),
    {
        proof {
            let v = inter_pred_idc as u64;
            if v < 2 {
                assert(v < (1u64 << 2u64) && ((v >> 1u64) & 1u64) == 0u64 && (((v >> 0u64) & 1u64
                    == 1u64) == (v == 1))) by (bit_vector)
                    requires
                        v < 2,
                ;
                assert(word_bits(v, 2) =~= seq![false, v == 1]);
            }
        }
        match inter_pred_idc {
            0 => {
                if cb_width + cb_height > 12 {
                    out_bins.push_bins_with_size(0b00, 2)
                } else {
                    out_bins.push_bin(false)
                }
            },
            1 => {
                if cb_width + cb_height > 12 {
                    out_bins.push_bins_with_size(0b01, 2)
                } else {
                    out_bins.push_bin(true)
                }
            },
            _ => out_bins.push_bin(true),
        }
    }

    /// Appends the binarization of `cu_qp_delta_abs`.
    pub fn encode_cu_qp_delta_abs(&self, out_bins: &mut Bins, cu_qp_delta_abs: usize)
        requires
            old(out_bins).num_bins + 256 <= usize::MAX,
        ensures
            appended(
                *old(out_bins),
                *final(out_bins),
                cu_qp_delta_abs_bits(cu_qp_delta_abs as nat),
            ),
    {
        let ghost a0 = *out_bins;
        let prefix_val = if cu_qp_delta_abs < 5 {
            cu_qp_delta_abs
        } else {
            5
        };
        proof {
            vstd::arithmetic::power2::lemma2_to64();
            vstd::bits::lemma_usize_pow2_no_overflow(0);
        }
        self.encode_trancated_rice(out_bins, prefix_val, 5, 0);
        let ghost a1 = *out_bins;
        if prefix_val > 4 {
            let suffiv_val = cu_qp_delta_abs - 5;
            self.encode_kth_order_exp_golomb(out_bins, suffiv_val, 0);
            proof {
                lemma_appended_trans(
                    a0,
                    a1,
                    *out_bins,
                    tr_bits(prefix_val as nat, 5, 0),
                    egk_bits(suffiv_val as nat, 0),
                );
            }
        } else {
            proof {
                assert(tr_bits(prefix_val as nat, 5, 0) + Seq::<bool>::empty() =~= tr_bits(
                    prefix_val as nat,
                    5,
                    0,
                ));
            }
        }
    }

    /// Appends the binarization of `abs_mvd_minus2` for `abs_mvd` (at least 2).
    pub fn encode_abs_mvd_minus2(&mut self, out_bins: &mut Bins, abs_mvd: usize)
        requires
            abs_mvd >= 2,
            old(out_bins).num_bins + 4 * usize::BITS <= usize::MAX,
        ensures
            appended(*old(out_bins), *final(out_bins), legk_bits((abs_mvd - 2) as nat, 1, 15, 17)),
            *final(self) == *old(self),
    {
        self.encode_limited_kth_order_exp_golomb(out_bins, abs_mvd - 2, 1, 15, 17);
    }

    /// Appends the fixed-length binarization of `last_sig_coeff_x_suffix`.
    pub fn binarize_cabac_for_last_sig_coeff_x_suffix(
        &mut self,
        out_bins: &mut Bins,
        val: usize,
        last_sig_coeff_x_prefix: usize,
    )
        requires
            4 <= last_sig_coeff_x_prefix,
            last_sig_coeff_x_prefix / 2 - 1 < usize::BITS,
            old(out_bins).num_bins + 64 <= usize::MAX,
        ensures
            final(out_bins).num_bins == old(out_bins).num_bins + ((last_sig_coeff_x_prefix / 2 - 1)),
            fits(val as u64, (last_sig_coeff_x_prefix / 2 - 1) as nat) ==> appended(
                *old(out_bins),
                *final(out_bins),
                word_bits(val as u64, (last_sig_coeff_x_prefix / 2 - 1) as nat),
            ),
            *final(self) == *old(self),
    {
        proof {
            vstd::bits::lemma_usize_shr_is_div(last_sig_coeff_x_prefix, 1);
            vstd::arithmetic::power2::lemma2_to64();
        }
        let e = (last_sig_coeff_x_prefix >> 1) - 1;
        proof {
            lemma_usize_shl_one(e);
            lemma_bit_length_mask(e as nat);
        }
        let c_max = (1 << e) - 1;
        self.encode_fixed_length(out_bins, val, c_max)
    }

    /// Appends the fixed-length binarization of `last_sig_coeff_y_suffix`.
    pub fn binarize_cabac_for_last_sig_coeff_y_suffix(
        &mut self,
        out_bins: &mut Bins,
        val: usize,
        last_sig_coeff_y_prefix: usize,
    )
        requires
            4 <= last_sig_coeff_y_prefix,
            last_sig_coeff_y_prefix / 2 - 1 < usize::BITS,
            old(out_bins).num_bins + 64 <= usize::MAX,
        ensures
            final(out_bins).num_bins == old(out_bins).num_bins + ((last_sig_coeff_y_prefix / 2 - 1)),
            fits(val as u64, (last_sig_coeff_y_prefix / 2 - 1) as nat) ==> appended(
                *old(out_bins),
                *final(out_bins),
                word_bits(val as u64, (last_sig_coeff_y_prefix / 2 - 1) as nat),
            ),
            *final(self) == *old(self),
    {
        proof {
            vstd::bits::lemma_usize_shr_is_div(last_sig_coeff_y_prefix, 1);
            vstd::arithmetic::power2::lemma2_to64();
        }
        let e = (last_sig_coeff_y_prefix >> 1) - 1;
        proof {
            lemma_usize_shl_one(e);
            lemma_bit_length_mask(e as nat);
        }
        let c_max = (1 << e) - 1;
        self.encode_fixed_length(out_bins, val, c_max)
    }

    /// Appends the single bin `1` that ends a slice, tile or subset.
    pub fn binarize_cabac_end_one_bit(&self, out_bins: &mut Bins)
        requires
            old(out_bins).num_bins + 64 <= usize::MAX,
        ensures
            appended(*old(out_bins), *final(out_bins), seq![true]),
    {
        proof {
            assert(bit_length(0) == 0);
            assert(bit_length(1) == 1);
            assert(((1u64 >> 0u64) & 1u64) == 1u64 && 1u64 < (1u64 << 1u64)) by (bit_vector);
            assert(fl_bits(1, 1) =~= seq![true]);
        }
        self.encode_fixed_length(out_bins, 1, 1);
    }

    /// Appends the one-bin binarization of `sig_coeff_flag`.
    pub fn binarize_cabac_sig_coeff_flag(&mut self, out_bins: &mut Bins, val: usize)
        requires
            old(out_bins).num_bins + 64 <= usize::MAX,
        ensures
            final(out_bins).num_bins == old(out_bins).num_bins + 1,
            fits(val as u64, 1) ==> appended(*old(out_bins), *final(out_bins), fl_bits(val, 1)),
            *final(self) == *old(self),
    {
        proof {
            assert(bit_length(0) == 0);
            assert(bit_length(1) == 1);
        }
        self.encode_fixed_length(out_bins, val, 1);
    }

    /// Appends the binarization of `val` given by its syntax element's process.
    pub fn _binarize_cabac(&mut self, out_bins: &mut Bins, val: usize, ctx: CabacContext)
        requires
            bin_process_ok(spec_ctx_to_bin_process(ctx), val),
            old(out_bins).num_bins + 4 * usize::BITS <= usize::MAX,
        ensures
            bin_process_domain(spec_ctx_to_bin_process(ctx), val) ==> appended(
                *old(out_bins),
                *final(out_bins),
                bin_process_bits(spec_ctx_to_bin_process(ctx), val),
            ),
            *final(self) == *old(self),
    {
        self.binarize_cabac_ct(out_bins, val, ctx)
    }

    /// Appends the binarization of `val` given by its syntax element's process.
    pub fn binarize_cabac_ct(&mut self, out_bins: &mut Bins, val: usize, ctx: CabacContext)
        requires
            bin_process_ok(spec_ctx_to_bin_process(ctx), val),
            old(out_bins).num_bins + 4 * usize::BITS <= usize::MAX,
        ensures
            bin_process_domain(spec_ctx_to_bin_process(ctx), val) ==> appended(
                *old(out_bins),
                *final(out_bins),
                bin_process_bits(spec_ctx_to_bin_process(ctx), val),
            ),
            *final(self) == *old(self),
    {
        let bin_process = ctx_to_bin_process(ctx);
        match bin_process {
            BinProcess::FL(c_max) => self.encode_fixed_length(out_bins, val, c_max),
            BinProcess::TB(c_max) => {
                proof {
                    lemma_bit_length_bounds((c_max + 1) as nat);
                    lemma_pow2_unfold(bit_length((c_max + 1) as nat));
                }
                self.encode_trancated_binary(out_bins, val, c_max)
            },
            BinProcess::TR(c_max, c_rice_param) => {
                self.encode_trancated_rice(out_bins, val, c_max, c_rice_param)
            },
            BinProcess::EG(k) => self.encode_kth_order_exp_golomb(out_bins, val, k),
            BinProcess::ETC => {},
        }
    }
}

proof fn lemma_shl2_pow2(p: usize)
    requires
        p + 1 < usize::BITS,
    ensures
        (2usize << p) == pow2((p + 1) as nat),
        pow2((p + 1) as nat) >= 2,
{
    lemma_usize_shl_one((p + 1) as usize);
    lemma_pow2_unfold((p + 1) as nat);
    vstd::arithmetic::power2::lemma_pow2_pos(p as nat);
    vstd::bits::lemma_usize_shl_is_mul(2, p);
}

proof fn lemma_egk_len(v: nat, k: nat)
    ensures
        egk_final_k(v, k) >= k,
        egk_bits(v, k).len() == (egk_final_k(v, k) - k) + 1 + egk_final_k(v, k),
        v + pow2(k) <= usize::MAX && k < usize::BITS ==> egk_final_k(v, k) < usize::BITS,
    decreases v,
{
    vstd::arithmetic::power2::lemma_pow2_pos(k);
    if v >= pow2(k) {
        lemma_egk_len((v - pow2(k)) as nat, k + 1);
        if v + pow2(k) <= usize::MAX && k < usize::BITS {
            lemma_pow2_unfold(k + 1);
            if k + 1 >= usize::BITS {
                lemma_pow2_usize_bits();
            }
        }
    }
}
/// The bins written when the engine settles a bit `b`: `b` itself (unless it is the
/// first bit of the arithmetic code, which is not written) followed by the
/// outstanding bits, each the opposite of `b`.
pub open spec fn put_bit_bins(first: bool, outstanding: nat, b: bool) -> Seq<bool> {
    (if first {
        Seq::empty()
    } else {
        seq![b]
    }) + repeat_bit(!b, outstanding)
}

/// Renormalization of the encoding engine: while the range is below 256 it is
/// doubled, together with the low end of the interval, settling a bit whenever the
/// interval lies in the lower or the upper half and deferring it otherwise.
/// The result is (range, offset, first-bit flag, outstanding bits, written bins).
pub open spec fn renorm(range: int, offset: int, first: bool, outstanding: nat) -> (
    int,
    int,
    bool,
    nat,
    Seq<bool>,
)
    decreases (if 0 < range < 256 {
        256 - range
    } else {
        0
    }),
{
    if 0 < range < 256 {
        let step = if offset < 256 {
            (offset, false, 0nat, put_bit_bins(first, outstanding, false))
        } else if offset >= 512 {
            (offset - 512, false, 0nat, put_bit_bins(first, outstanding, true))
        } else {
            (offset - 256, first, outstanding + 1, Seq::empty())
        };
        let r = renorm(2 * range, 2 * step.0, step.1, step.2);
        (r.0, r.1, r.2, r.3, step.3 + r.4)
    } else {
        (range, offset, first, outstanding, Seq::empty())
    }
}

/// The interval registers of the engine are in their working range.
pub open spec fn engine_ok(range: int, offset: int) -> bool {
    256 <= range <= 510 && 0 <= offset && offset + range <= 1024
}

proof fn lemma_renorm(range: int, offset: int, first: bool, outstanding: nat, steps: nat)
    requires
        1 <= range <= 510,
        0 <= offset,
        offset + range <= 1024,
        range * pow2(steps) >= 256,
    ensures
        engine_ok(renorm(range, offset, first, outstanding).0, renorm(range, offset, first, outstanding).1),
        renorm(range, offset, first, outstanding).4.len() + renorm(range, offset, first, outstanding).3
            <= outstanding + steps,
        range >= 256 ==> renorm(range, offset, first, outstanding) == (range, offset, first, outstanding, Seq::<bool>::empty()),
    decreases steps,
{
    if range < 256 {
        if steps == 0 {
            vstd::arithmetic::power2::lemma2_to64();
        } else {
            lemma_pow2_unfold(steps);
            vstd::arithmetic::mul::lemma_mul_is_associative(range, 2, pow2((steps - 1) as nat) as int);
            let step = if offset < 256 {
                (offset, false, 0nat, put_bit_bins(first, outstanding, false))
            } else if offset >= 512 {
                (offset - 512, false, 0nat, put_bit_bins(first, outstanding, true))
            } else {
                (offset - 256, first, outstanding + 1, Seq::<bool>::empty())
            };
            lemma_renorm(2 * range, 2 * step.0, step.1, step.2, (steps - 1) as nat);
        }
    }
}

/// The p-state tables: one per syntax element with a table, three initialization
/// types each, as many entries as the initialization table, and probabilities in range.
pub open spec fn tables_wf(t: Seq<Vec<Vec<[u16; 2]>>>) -> bool {
    &&& t.len() == NUM_CTX_TABLES
    &&& forall|c: int| 0 <= c < t.len() ==> #[trigger] t[c]@.len() == 3
    &&& forall|c: int, it: int|
        0 <= c < t.len() && 0 <= it < 3 ==> #[trigger] t[c]@[it]@.len() == spec_ctx_init_values(
            c as usize,
            0,
        ).len()
    &&& forall|c: int, it: int, i: int|
        0 <= c < t.len() && 0 <= it < 3 && 0 <= i < t[c]@[it]@.len() ==> #[trigger] t[c]@[it]@[i][0]
            <= 1023 && t[c]@[it]@[i][1] <= 16383
}

/// The state update of a context variable after coding `bin` with adaptation rate index `shift_idx`.
pub open spec fn transition(p: [u16; 2], bin: bool, shift_idx: u8) -> [u16; 2] {
    let shift0 = ((shift_idx >> 2u8) + 2) as u16;
    let shift1 = ((shift_idx & 3u8) + 3) as u16 + shift0;
    [
        (p[0] - (p[0] >> shift0) + ((1023 * (bin as u16)) as u16 >> shift0)) as u16,
        (p[1] - (p[1] >> shift1) + ((16383 * (bin as u16)) as u16 >> shift1)) as u16,
    ]
}

/// The width of the LPS subinterval for the current range and context state.
pub open spec fn lps_range(range: u16, p: [u16; 2]) -> u16 {
    let q_range_idx = range >> 5u16;
    let p_state = (p[1] + 16 * p[0]) as u16;
    let val_mps = p_state >> 14u16;
    (((q_range_idx * ((if val_mps == 0 {
        p_state
    } else {
        (32767 - p_state) as u16
    }) >> 9u16)) as u16 >> 1u16) + 4) as u16
}

impl BoolCoder {
    /// The context-variable tables and the engine's bookkeeping are well formed.
    pub open spec fn wf(self) -> bool {
        &&& tables_wf(self.cabac_p_state_idx@)
        &&& tables_wf(self.cabac_table_state_sync@)
    }

    /// The state of context variable `ctx_idx` of table `ctx` for `init_type`.
    pub open spec fn p_state(self, ctx: int, init_type: int, ctx_idx: int) -> [u16; 2] {
        self.cabac_p_state_idx@[ctx]@[init_type]@[ctx_idx]
    }

    /// Settles bit `bin` and writes it with the outstanding bits.
    pub fn flush_cabac_bin(&mut self, out_bins: &mut Bins, bin: bool)
        requires
            old(out_bins).num_bins + old(self).cabac_bits_outstanding + 1 <= usize::MAX,
        ensures
            appended(
                *old(out_bins),
                *final(out_bins),
                put_bit_bins(
                    old(self).cabac_first_bit_flag,
                    old(self).cabac_bits_outstanding as nat,
                    bin,
                ),
            ),
            final(self).cabac_first_bit_flag == false,
            final(self).cabac_bits_outstanding == 0,
            final(self).cabac_ivl_curr_range == old(self).cabac_ivl_curr_range,
            final(self).cabac_ivl_offset == old(self).cabac_ivl_offset,
            final(self).cabac_p_state_idx == old(self).cabac_p_state_idx,
            final(self).cabac_table_state_sync == old(self).cabac_table_state_sync,
    {
        let ghost a0 = *out_bins;
        let ghost first_bins: Seq<bool> = if self.cabac_first_bit_flag {
            Seq::empty()
        } else {
            seq![bin]
        };
        if !self.cabac_first_bit_flag {
            out_bins.push_bin(bin);
        } else {
            proof {
                lemma_appended_nothing(a0);
            }
        }
        self.cabac_first_bit_flag = false;
        let ghost n = self.cabac_bits_outstanding;
        while self.cabac_bits_outstanding > 0
            invariant
                self.cabac_bits_outstanding <= n,
                appended(a0, *out_bins, first_bins + repeat_bit(!bin, (n - self.cabac_bits_outstanding) as nat)),
                a0.num_bins + n + 1 <= usize::MAX,
                first_bins.len() <= 1,
                self.cabac_first_bit_flag == false,
                self.cabac_ivl_curr_range == old(self).cabac_ivl_curr_range,
                self.cabac_ivl_offset == old(self).cabac_ivl_offset,
                self.cabac_p_state_idx == old(self).cabac_p_state_idx,
                self.cabac_table_state_sync == old(self).cabac_table_state_sync,
            decreases self.cabac_bits_outstanding,
        {
            let ghost before = *out_bins;
            out_bins.push_bin(!bin);
            self.cabac_bits_outstanding -= 1;
            proof {
                let done = first_bins + repeat_bit(!bin, (n - self.cabac_bits_outstanding - 1) as nat);
                lemma_appended_trans(a0, before, *out_bins, done, seq![!bin]);
                assert(done + seq![!bin] =~= first_bins + repeat_bit(!bin, (n - self.cabac_bits_outstanding) as nat));
            }
        }
        proof {
            if !old(self).cabac_first_bit_flag {
                assert(first_bins + repeat_bit(!bin, 0) =~= first_bins);
            } else {
                assert(first_bins + repeat_bit(!bin, 0) =~= first_bins);
            }
        }
    }

    /// Writes `bin` (even as the first bit) followed by the outstanding bits.
    pub fn flush_cabac_trailing_bin(&mut self, out_bins: &mut Bins, bin: bool)
        requires
            old(out_bins).num_bins + old(self).cabac_bits_outstanding + 1 <= usize::MAX,
        ensures
            appended(
                *old(out_bins),
                *final(out_bins),
                put_bit_bins(false, old(self).cabac_bits_outstanding as nat, bin),
            ),
            final(self).cabac_first_bit_flag == old(self).cabac_first_bit_flag,
            final(self).cabac_bits_outstanding == 0,
            final(self).cabac_ivl_curr_range == old(self).cabac_ivl_curr_range,
            final(self).cabac_ivl_offset == old(self).cabac_ivl_offset,
            final(self).cabac_p_state_idx == old(self).cabac_p_state_idx,
            final(self).cabac_table_state_sync == old(self).cabac_table_state_sync,
    {
        let ghost a0 = *out_bins;
        out_bins.push_bin(bin);
        let ghost n = self.cabac_bits_outstanding;
        while self.cabac_bits_outstanding > 0
            invariant
                self.cabac_bits_outstanding <= n,
                appended(a0, *out_bins, seq![bin] + repeat_bit(!bin, (n - self.cabac_bits_outstanding) as nat)),
                a0.num_bins + n + 1 <= usize::MAX,
                self.cabac_first_bit_flag == old(self).cabac_first_bit_flag,
                self.cabac_ivl_curr_range == old(self).cabac_ivl_curr_range,
                self.cabac_ivl_offset == old(self).cabac_ivl_offset,
                self.cabac_p_state_idx == old(self).cabac_p_state_idx,
                self.cabac_table_state_sync == old(self).cabac_table_state_sync,
            decreases self.cabac_bits_outstanding,
        {
            let ghost before = *out_bins;
            out_bins.push_bin(!bin);
            self.cabac_bits_outstanding -= 1;
            proof {
                let done = seq![bin] + repeat_bit(!bin, (n - self.cabac_bits_outstanding - 1) as nat);
                lemma_appended_trans(a0, before, *out_bins, done, seq![!bin]);
                assert(done + seq![!bin] =~= seq![bin] + repeat_bit(!bin, (n - self.cabac_bits_outstanding) as nat));
            }
        }
        proof {
            assert(seq![bin] + repeat_bit(!bin, n as nat) =~= put_bit_bins(false, n as nat, bin));
        }
    }

    /// Renormalizes the encoding engine (see `renorm`).
    pub fn renorm_cabac_encode_engine(&mut self, out_bins: &mut Bins)
        requires
            1 <= old(self).cabac_ivl_curr_range <= 510,
            old(self).cabac_ivl_offset + old(self).cabac_ivl_curr_range <= 1024,
            old(self).cabac_bits_outstanding + 9 <= usize::MAX,
            old(out_bins).num_bins + old(self).cabac_bits_outstanding + 9 <= usize::MAX,
        ensures
            ({
                let r = renorm(
                    old(self).cabac_ivl_curr_range as int,
                    old(self).cabac_ivl_offset as int,
                    old(self).cabac_first_bit_flag,
                    old(self).cabac_bits_outstanding as nat,
                );
                &&& final(self).cabac_ivl_curr_range == r.0
                &&& final(self).cabac_ivl_offset == r.1
                &&& final(self).cabac_first_bit_flag == r.2
                &&& final(self).cabac_bits_outstanding == r.3
                &&& appended(*old(out_bins), *final(out_bins), r.4)
                &&& r.4.len() + r.3 <= old(self).cabac_bits_outstanding + 8
            }),
            engine_ok(final(self).cabac_ivl_curr_range as int, final(self).cabac_ivl_offset as int),
            final(self).cabac_p_state_idx == old(self).cabac_p_state_idx,
            final(self).cabac_table_state_sync == old(self).cabac_table_state_sync,
    {
        let ghost a0 = *out_bins;
        let ghost target = renorm(
            self.cabac_ivl_curr_range as int,
            self.cabac_ivl_offset as int,
            self.cabac_first_bit_flag,
            self.cabac_bits_outstanding as nat,
        );
        let ghost mut done: Seq<bool> = Seq::empty();
        let ghost mut steps: nat = 8;
        proof {
            vstd::arithmetic::power2::lemma2_to64();
            lemma_renorm(
                self.cabac_ivl_curr_range as int,
                self.cabac_ivl_offset as int,
                self.cabac_first_bit_flag,
                self.cabac_bits_outstanding as nat,
                8,
            );
            lemma_appended_nothing(a0);
        }
        let ghost n0 = self.cabac_bits_outstanding;
        while self.cabac_ivl_curr_range < 256
            invariant
                1 <= self.cabac_ivl_curr_range <= 510,
                self.cabac_ivl_offset + self.cabac_ivl_curr_range <= 1024,
                self.cabac_ivl_curr_range * pow2(steps) >= 256,
                ({
                    let r = renorm(
                        self.cabac_ivl_curr_range as int,
                        self.cabac_ivl_offset as int,
                        self.cabac_first_bit_flag,
                        self.cabac_bits_outstanding as nat,
                    );
                    &&& r.0 == target.0 && r.1 == target.1 && r.2 == target.2 && r.3 == target.3
                    &&& target.4 == done + r.4
                    &&& done.len() + self.cabac_bits_outstanding + steps <= n0 + 8
                }),
                appended(a0, *out_bins, done),
                a0.num_bins + n0 + 9 <= usize::MAX,
                target.4.len() + target.3 <= n0 + 8,
                self.cabac_p_state_idx == old(self).cabac_p_state_idx,
                self.cabac_table_state_sync == old(self).cabac_table_state_sync,
            decreases 512 - self.cabac_ivl_curr_range,
        {
            let ghost before = *out_bins;
            let ghost r0 = self.cabac_ivl_curr_range as int;
            let ghost st = (self.cabac_ivl_offset as int, self.cabac_first_bit_flag, self.cabac_bits_outstanding as nat);
            let ghost cur = renorm(r0, st.0, st.1, st.2);
            proof {
                vstd::arithmetic::power2::lemma2_to64();
                if steps == 0 {
                    assert(pow2(steps) == 1);
                    assert(r0 * pow2(steps) == r0) by (nonlinear_arith)
                        requires
                            pow2(steps) == 1,
                    ;
                    assert(false);
                }
                lemma_pow2_unfold(steps);
                vstd::arithmetic::mul::lemma_mul_is_associative(r0, 2, pow2((steps - 1) as nat) as int);
            }
            let ghost mut step_bins: Seq<bool> = Seq::empty();
            if self.cabac_ivl_offset < 256 {
                self.flush_cabac_bin(out_bins, false);
                proof {
                    step_bins = put_bit_bins(st.1, st.2, false);
                }
            } else if self.cabac_ivl_offset >= 512 {
                self.cabac_ivl_offset -= 512;
                self.flush_cabac_bin(out_bins, true);
                proof {
                    step_bins = put_bit_bins(st.1, st.2, true);
                }
            } else {
                self.cabac_ivl_offset -= 256;
                self.cabac_bits_outstanding += 1;
                proof {
                    step_bins = Seq::empty();
                    lemma_appended_nothing(*out_bins);
                }
            }
            proof {
                lemma_appended_trans(a0, before, *out_bins, done, step_bins);
            }
            self.cabac_ivl_curr_range = self.cabac_ivl_curr_range * 2;
            self.cabac_ivl_offset = self.cabac_ivl_offset * 2;
            proof {
                let next = renorm(
                    self.cabac_ivl_curr_range as int,
                    self.cabac_ivl_offset as int,
                    self.cabac_first_bit_flag,
                    self.cabac_bits_outstanding as nat,
                );
                assert(cur.4 == step_bins + next.4);
                assert(target.4 =~= (done + step_bins) + next.4);
                done = done + step_bins;
                steps = (steps - 1) as nat;
                lemma_renorm(
                    self.cabac_ivl_curr_range as int,
                    self.cabac_ivl_offset as int,
                    self.cabac_first_bit_flag,
                    self.cabac_bits_outstanding as nat,
                    steps,
                );
            }
        }
        proof {
            assert(done + Seq::<bool>::empty() =~= done);
        }
    }
}


/// Bypass coding of `bin`: the low end of the interval is doubled, the range added
/// for a one, and the top bit settled or deferred as in renormalization.
/// The result is (offset, first-bit flag, outstanding bits, written bins).
pub open spec fn bypass(range: int, offset: int, first: bool, outstanding: nat, bin: bool) -> (
    int,
    bool,
    nat,
    Seq<bool>,
) {
    let o = 2 * offset + if bin {
        range
    } else {
        0
    };
    if o >= 1024 {
        (o - 1024, false, 0nat, put_bit_bins(first, outstanding, true))
    } else if o < 512 {
        (o, false, 0nat, put_bit_bins(first, outstanding, false))
    } else {
        (o - 512, first, outstanding + 1, Seq::empty())
    }
}

/// The most probable symbol of a context state.
pub open spec fn val_mps(p: [u16; 2]) -> u16 {
    ((p[1] + 16 * p[0]) as u16) >> 14u16
}

/// The interval (range, offset) after coding `bin` with context state `p`, before
/// renormalization: the most probable symbol keeps the lower part, the other one
/// takes the LPS subinterval at the top.
pub open spec fn decision_interval(range: u16, offset: u16, p: [u16; 2], bin: bool) -> (int, int) {
    let lps = lps_range(range, p);
    if val_mps(p) == (bin as u16) {
        (range - lps, offset as int)
    } else {
        (lps as int, offset + range - lps)
    }
}

/// Termination coding of `bin`: the range shrinks by two; a one selects the top two
/// values, is renormalized and flushed with the two following bits of the low end
/// and a final one. The result is (range, offset, written bins).
pub open spec fn terminate(range: int, offset: int, first: bool, outstanding: nat, bin: bool) -> (
    int,
    int,
    Seq<bool>,
) {
    if bin {
        let r = renorm(2, offset + range - 2, first, outstanding);
        let o = r.1 as u16;
        (
            r.0,
            r.1,
            r.4 + put_bit_bins(r.2, r.3, (o >> 9u16) & 1u16 > 0) + seq![(o >> 8u16) & 1u16 > 0, true],
        )
    } else {
        let r = renorm(range - 2, offset, first, outstanding);
        (r.0, r.1, r.4)
    }
}

/// `new` is `old` with entry (c, t, i) set to `v` and every shape kept.
pub open spec fn tables_update(
    old: Seq<Vec<Vec<[u16; 2]>>>,
    new: Seq<Vec<Vec<[u16; 2]>>>,
    c: int,
    t: int,
    i: int,
    v: [u16; 2],
) -> bool {
    &&& new.len() == old.len()
    &&& forall|c2: int| 0 <= c2 < old.len() ==> #[trigger] new[c2]@.len() == old[c2]@.len()
    &&& forall|c2: int, t2: int|
        0 <= c2 < old.len() && 0 <= t2 < old[c2]@.len() ==> #[trigger] new[c2]@[t2]@.len()
            == old[c2]@[t2]@.len()
    &&& forall|c2: int, t2: int, i2: int|
        0 <= c2 < old.len() && 0 <= t2 < old[c2]@.len() && 0 <= i2 < old[c2]@[t2]@.len()
            ==> #[trigger] new[c2]@[t2]@[i2] == if c2 == c && t2 == t && i2 == i {
            v
        } else {
            old[c2]@[t2]@[i2]
        }
}

/// The context state initialized from `init_value` at slice QP `qp`.
pub open spec fn pre_ctx_state(init_value: u8, qp: isize) -> int {
    let m = init_value / 8 - 4;
    let n = (init_value % 8) * 18 + 1;
    let q = if qp < 0 {
        0
    } else if qp > 63 {
        63
    } else {
        qp as int
    };
    let s = (m * (q - 16)) / 2 + n;
    if s < 1 {
        1
    } else if s > 127 {
        127
    } else {
        s
    }
}

/// A context variable initialized from `init_value` (below 64) at slice QP `qp`
/// holds the state `s` at 8 and 128 times scale, where, with slope
/// `m = init_value / 8 - 4`, offset `n = (init_value % 8) * 18 + 1` and `q` the QP
/// limited to 0 to 63, `s` lies in 1 to 127 and inside that range is
/// `m * (q - 16)` halved (rounded down) plus `n`.
pub proof fn law_context_state_is_half_the_slope_term_plus_the_offset(init_value: u8, qp: isize)
    requires
        init_value < 64,
    ensures
        ({
            let r = init_state(init_value, qp);
            let s = r[0] / 8;
            let m = (init_value / 8) as int - 4;
            let n = (init_value % 8) as int * 18 + 1;
            let q: int = if qp < 0 {
                0
            } else if qp > 63 {
                63
            } else {
                qp as int
            };
            let t = m * (q - 16);
            &&& r[0] == 8 * s && r[1] == 128 * s
            &&& 1 <= s <= 127
            &&& 1 < s < 127 ==> 2 * (s - n) <= t < 2 * (s - n) + 2
            &&& s == 1 ==> t < 2 * (2 - n)
            &&& s == 127 ==> t >= 2 * (127 - n)
        }),
{
    let m = (init_value / 8) as int - 4;
    let q: int = if qp < 0 {
        0
    } else if qp > 63 {
        63
    } else {
        qp as int
    };
    let t = m * (q - 16);
    assert(-200 <= t <= 200) by (nonlinear_arith)
        requires
            -4 <= m <= 3,
            0 <= q <= 63,
            t == m * (q - 16),
    ;
    let ps = pre_ctx_state(init_value, qp);
    assert(1 <= ps <= 127);
    assert(init_state(init_value, qp)[0] == ps * 8);
    assert(init_state(init_value, qp)[1] == ps * 128);
    assert((ps * 8) / 8 == ps);
}

/// The two probability estimates of a freshly initialized context variable.
pub open spec fn init_state(init_value: u8, qp: isize) -> [u16; 2] {
    [(pre_ctx_state(init_value, qp) * 8) as u16, (pre_ctx_state(init_value, qp) * 128) as u16]
}

/// The initialized states of table `c` for initialization type `t`.
pub open spec fn init_row(c: usize, t: usize, qp: isize) -> Seq<[u16; 2]> {
    spec_ctx_init_values(c, t).map_values(|v: u8| init_state(v, qp))
}

/// A table entry is addressable: a syntax element with a table, an
/// initialization type and an index within the table.
pub open spec fn ctx_entry_ok(ctx: CabacContext, init_type: usize, ctx_idx: usize) -> bool {
    &&& ctx.spec_index() < NUM_CTX_TABLES
    &&& init_type < 3
    &&& ctx_idx < spec_ctx_init_values(ctx.spec_index(), 0).len()
}

proof fn lemma_lps_bounds(range: u16, ps: u16)
    requires
        256 <= range <= 510,
        ps <= 32751,
    ensures
        (ps >> 14u16) <= 1,
        (range >> 5u16) <= 15,
        (ps >> 14u16) == 0 ==> (ps >> 9u16) <= 31,
        (ps >> 14u16) != 0 ==> (((32767 - ps) as u16) >> 9u16) <= 31,
{
    vstd::bits::lemma_u16_shr_is_div(ps, 14);
    vstd::bits::lemma_u16_shr_is_div(ps, 9);
    vstd::bits::lemma_u16_shr_is_div(range, 5);
    vstd::bits::lemma_u16_shr_is_div((32767 - ps) as u16, 9);
    vstd::arithmetic::power2::lemma2_to64();
}

proof fn lemma_transition_bounds(p: u16, b: u16, s: u16, top: u16)
    by (bit_vector)
    requires
        top == 1023 || top == 16383,
        p <= top,
        b <= 1,
        2 <= s <= 11,
    ensures
        (p >> s) <= p,
        p - (p >> s) + (((top * b) as u16) >> s) <= top,
{
}

/// Setting one entry to a state within range keeps the tables well formed.
proof fn lemma_tables_update_wf(
    old: Seq<Vec<Vec<[u16; 2]>>>,
    new: Seq<Vec<Vec<[u16; 2]>>>,
    c: int,
    t: int,
    i: int,
    v: [u16; 2],
)
    requires
        tables_wf(old),
        tables_update(old, new, c, t, i, v),
        v[0] <= 1023,
        v[1] <= 16383,
    ensures
        tables_wf(new),
{
    assert forall|c2: int, it: int, i2: int|
        0 <= c2 < new.len() && 0 <= it < 3 && 0 <= i2 < new[c2]@[it]@.len() implies #[trigger] new[c2]@[it]@[i2][0]
            <= 1023 && new[c2]@[it]@[i2][1] <= 16383 by {
        assert(old[c2]@.len() == 3);
        assert(new[c2]@[it]@.len() == old[c2]@[it]@.len());
        assert(old[c2]@[it]@[i2][0] <= 1023 && old[c2]@[it]@[i2][1] <= 16383);
        assert(new[c2]@[it]@[i2] == if c2 == c && it == t && i2 == i {
            v
        } else {
            old[c2]@[it]@[i2]
        });
    }
}

/// The initialization type of a slice: 0 for I slices; for P and B slices 1 or 2,
/// swapped by `cabac_init_flag`.
pub open spec fn init_type_of(slice_type: SliceType, cabac_init_flag: bool) -> usize {
    match slice_type {
        SliceType::I => 0,
        SliceType::P => if cabac_init_flag {
            2
        } else {
            1
        },
        SliceType::B => if cabac_init_flag {
            1
        } else {
            2
        },
    }
}

/// The state of a context variable initialized from `init_value` at `slice_qp_y`.
pub fn init_ctx_state(init_value: u8, slice_qp_y: isize) -> (r: [u16; 2])
    requires
        init_value < 64,
    ensures
        r == init_state(init_value, slice_qp_y),
{
    proof {
        assert(init_value >> 3u8 == init_value / 8 && init_value & 7u8 == init_value % 8) by (bit_vector);
    }
    let slope_idx = init_value >> 3;
    let offset_idx = init_value & 7;
    let m = slope_idx as isize - 4;
    let n = offset_idx as isize * 18 + 1;
    let qp: isize = if slice_qp_y < 0 {
        0
    } else if slice_qp_y > 63 {
        63
    } else {
        slice_qp_y
    };
    proof {
        assert(-200 <= m * (qp - 16) <= 200) by (nonlinear_arith)
            requires
                -4 <= m <= 3,
                0 <= qp <= 63,
        ;
    }
    let x = m * (qp - 16);
    proof {
        assert((x >> 1isize) as int == x / 2) by (bit_vector)
            requires
                -200 <= x <= 200,
        ;
    }
    let s = (x >> 1) + n;
    let pre: u16 = if s < 1 {
        1
    } else if s > 127 {
        127
    } else {
        s as u16
    };
    proof {
        vstd::arithmetic::power2::lemma2_to64();
        vstd::bits::lemma_u16_shl_is_mul(pre, 3);
        vstd::bits::lemma_u16_shl_is_mul(pre, 7);
    }
    [pre << 3, pre << 7]
}

fn init_table_row(c: usize, init_type: usize, slice_qp_y: isize) -> (r: Vec<[u16; 2]>)
    requires
        init_type < 3,
    ensures
        r@ == init_row(c, init_type, slice_qp_y),
{
    proof {
        lemma_ctx_tables_shape(c, init_type);
    }
    let n = ctx_table_len(c);
    let mut row: Vec<[u16; 2]> = Vec::new();
    let mut i: usize = 0;
    while i < n
        invariant
            i <= n,
            init_type < 3,
            n == spec_ctx_init_values(c, init_type).len(),
            forall|k: int| 0 <= k < n ==> #[trigger] spec_ctx_init_values(c, init_type)[k] < 64,
            row@ =~= init_row(c, init_type, slice_qp_y).subrange(0, i as int),
        decreases n - i,
    {
        let v = ctx_init_values_at(c, init_type, i);
        row.push(init_ctx_state(v, slice_qp_y));
        i += 1;
    }
    row
}

fn zero_table_row(n: usize) -> (r: Vec<[u16; 2]>)
    ensures
        r@ == Seq::new(n as nat, |i: int| [0u16, 0u16]),
{
    let mut row: Vec<[u16; 2]> = Vec::new();
    let mut i: usize = 0;
    while i < n
        invariant
            i <= n,
            row@ =~= Seq::new(i as nat, |k: int| [0u16, 0u16]),
        decreases n - i,
    {
        row.push([0, 0]);
        i += 1;
    }
    row
}

fn copy_table_row(src: &Vec<[u16; 2]>) -> (r: Vec<[u16; 2]>)
    ensures
        r@ == src@,
{
    let mut row: Vec<[u16; 2]> = Vec::new();
    let mut i: usize = 0;
    while i < src.len()
        invariant
            i <= src.len(),
            row@ =~= src@.subrange(0, i as int),
        decreases src.len() - i,
    {
        row.push(src[i]);
        i += 1;
    }
    row
}

/// Tables shaped as the initialization tables, every state zero.
fn zero_tables() -> (t: Vec<Vec<Vec<[u16; 2]>>>)
    ensures
        tables_wf(t@),
        forall|c: int, it: int, i: int|
            0 <= c < t@.len() && 0 <= it < 3 && 0 <= i < t@[c]@[it]@.len() ==> #[trigger] t@[c]@[it]@[i]
                == [0u16, 0u16],
{
    let mut t: Vec<Vec<Vec<[u16; 2]>>> = Vec::new();
    let mut c: usize = 0;
    while c < NUM_CTX_TABLES
        invariant
            c <= NUM_CTX_TABLES,
            t@.len() == c,
            forall|c2: int| 0 <= c2 < c ==> #[trigger] t@[c2]@.len() == 3,
            forall|c2: int, it: int|
                0 <= c2 < c && 0 <= it < 3 ==> #[trigger] t@[c2]@[it]@ == Seq::new(
                    spec_ctx_init_values(c2 as usize, 0).len(),
                    |i: int| [0u16, 0u16],
                ),
        decreases NUM_CTX_TABLES - c,
    {
        let n = ctx_table_len(c);
        let mut per: Vec<Vec<[u16; 2]>> = Vec::new();
        let mut it: usize = 0;
        while it < 3
            invariant
                it <= 3,
                per@.len() == it,
                n == spec_ctx_init_values(c, 0).len(),
                forall|j: int| 0 <= j < it ==> #[trigger] per@[j]@ == Seq::new(n as nat, |i: int| [0u16, 0u16]),
            decreases 3 - it,
        {
            per.push(zero_table_row(n));
            it += 1;
        }
        t.push(per);
        c += 1;
    }
    t
}

/// Tables of freshly initialized context states for `slice_qp_y`.
fn init_tables(slice_qp_y: isize) -> (t: Vec<Vec<Vec<[u16; 2]>>>)
    ensures
        tables_wf(t@),
        forall|c: int, it: int|
            0 <= c < t@.len() && 0 <= it < 3 ==> #[trigger] t@[c]@[it]@ == init_row(
                c as usize,
                it as usize,
                slice_qp_y,
            ),
{
    let mut t: Vec<Vec<Vec<[u16; 2]>>> = Vec::new();
    let mut c: usize = 0;
    while c < NUM_CTX_TABLES
        invariant
            c <= NUM_CTX_TABLES,
            t@.len() == c,
            forall|c2: int| 0 <= c2 < c ==> #[trigger] t@[c2]@.len() == 3,
            forall|c2: int, it: int|
                0 <= c2 < c && 0 <= it < 3 ==> #[trigger] t@[c2]@[it]@ == init_row(
                    c2 as usize,
                    it as usize,
                    slice_qp_y,
                ),
        decreases NUM_CTX_TABLES - c,
    {
        let mut per: Vec<Vec<[u16; 2]>> = Vec::new();
        let mut it: usize = 0;
        while it < 3
            invariant
                it <= 3,
                per@.len() == it,
                forall|j: int| 0 <= j < it ==> #[trigger] per@[j]@ == init_row(c, j as usize, slice_qp_y),
            decreases 3 - it,
        {
            per.push(init_table_row(c, it, slice_qp_y));
            it += 1;
        }
        t.push(per);
        c += 1;
    }
    proof {
        assert forall|c2: int, it: int| 0 <= c2 < t@.len() && 0 <= it < 3 implies #[trigger] t@[c2]@[it]@.len()
            == spec_ctx_init_values(c2 as usize, 0).len() by {
            lemma_ctx_tables_shape(c2 as usize, it as usize);
        }
        assert forall|c2: int, it: int, i: int|
            0 <= c2 < t@.len() && 0 <= it < 3 && 0 <= i < t@[c2]@[it]@.len() implies #[trigger] t@[c2]@[it]@[i][0]
                <= 1023 && t@[c2]@[it]@[i][1] <= 16383 by {
            assert(t@[c2]@[it]@[i] == init_state(spec_ctx_init_values(c2 as usize, it as usize)[i], slice_qp_y));
        }
    }
    t
}

/// A copy of tables `src`, entry by entry.
fn copy_tables(src: &Vec<Vec<Vec<[u16; 2]>>>) -> (t: Vec<Vec<Vec<[u16; 2]>>>)
    requires
        tables_wf(src@),
    ensures
        tables_wf(t@),
        t@.len() == src@.len(),
        forall|c: int| 0 <= c < t@.len() ==> #[trigger] t@[c]@.len() == src@[c]@.len(),
        forall|c: int, it: int|
            0 <= c < t@.len() && 0 <= it < 3 ==> #[trigger] t@[c]@[it]@ == src@[c]@[it]@,
{
    let mut t: Vec<Vec<Vec<[u16; 2]>>> = Vec::new();
    let mut c: usize = 0;
    while c < src.len()
        invariant
            c <= src@.len(),
            tables_wf(src@),
            t@.len() == c,
            forall|c2: int| 0 <= c2 < c ==> #[trigger] t@[c2]@.len() == 3,
            forall|c2: int, it: int|
                0 <= c2 < c && 0 <= it < 3 ==> #[trigger] t@[c2]@[it]@ == src@[c2]@[it]@,
        decreases src@.len() - c,
    {
        let mut per: Vec<Vec<[u16; 2]>> = Vec::new();
        let mut it: usize = 0;
        assert(src@[c as int]@.len() == 3);
        while it < 3
            invariant
                it <= 3,
                c < src@.len(),
                src@[c as int]@.len() == 3,
                per@.len() == it,
                forall|j: int| 0 <= j < it ==> #[trigger] per@[j]@ == src@[c as int]@[j]@,
            decreases 3 - it,
        {
            per.push(copy_table_row(&src[c][it]));
            it += 1;
        }
        t.push(per);
        c += 1;
    }
    t
}

impl BoolCoder {
    /// The engine coded `bin` in bypass mode from state `self` and bins `bins`.
    pub open spec fn bypass_coded(self, next: BoolCoder, bins: Bins, next_bins: Bins, bin: bool) -> bool {
        let r = bypass(
            self.cabac_ivl_curr_range as int,
            self.cabac_ivl_offset as int,
            self.cabac_first_bit_flag,
            self.cabac_bits_outstanding as nat,
            bin,
        );
        &&& next.cabac_ivl_curr_range == self.cabac_ivl_curr_range
        &&& next.cabac_ivl_offset == r.0
        &&& next.cabac_first_bit_flag == r.1
        &&& next.cabac_bits_outstanding == r.2
        &&& appended(bins, next_bins, r.3)
        &&& next.cabac_p_state_idx == self.cabac_p_state_idx
    }

    /// The engine coded `bin` with context variable (c, t, i) from state `self`:
    /// interval subdivision, renormalization and the state transition.
    pub open spec fn decision_coded(
        self,
        next: BoolCoder,
        bins: Bins,
        next_bins: Bins,
        bin: bool,
        c: int,
        t: int,
        i: int,
    ) -> bool {
        let p = self.p_state(c, t, i);
        let iv = decision_interval(self.cabac_ivl_curr_range, self.cabac_ivl_offset, p, bin);
        let r = renorm(iv.0, iv.1, self.cabac_first_bit_flag, self.cabac_bits_outstanding as nat);
        &&& next.cabac_ivl_curr_range == r.0
        &&& next.cabac_ivl_offset == r.1
        &&& next.cabac_first_bit_flag == r.2
        &&& next.cabac_bits_outstanding == r.3
        &&& appended(bins, next_bins, r.4)
        &&& tables_update(
            self.cabac_p_state_idx@,
            next.cabac_p_state_idx@,
            c,
            t,
            i,
            transition(p, bin, spec_ctx_shift_idx(c as usize, t as usize)[i]),
        )
    }

    /// The interval registers are in their working range.
    pub open spec fn engine_ok(self) -> bool {
        engine_ok(self.cabac_ivl_curr_range as int, self.cabac_ivl_offset as int)
    }

    /// Room for the bins the next coding step may write.
    pub open spec fn room(self, bins: Bins, n: int) -> bool {
        bins.num_bins + self.cabac_bits_outstanding + n <= usize::MAX
    }

    /// Updates context variable (ctx, init_type, ctx_idx) after coding `bin_val`.
    pub fn transition_cabac_state(
        &mut self,
        bin_val: bool,
        ctx: CabacContext,
        init_type: usize,
        ctx_idx: usize,
    )
        requires
            old(self).wf(),
            ctx_entry_ok(ctx, init_type, ctx_idx),
        ensures
            final(self).wf(),
            tables_update(
                old(self).cabac_p_state_idx@,
                final(self).cabac_p_state_idx@,
                ctx.spec_index() as int,
                init_type as int,
                ctx_idx as int,
                transition(
                    old(self).p_state(ctx.spec_index() as int, init_type as int, ctx_idx as int),
                    bin_val,
                    spec_ctx_shift_idx(ctx.spec_index(), init_type)[ctx_idx as int],
                ),
            ),
            final(self).cabac_table_state_sync == old(self).cabac_table_state_sync,
            final(self).cabac_ivl_curr_range == old(self).cabac_ivl_curr_range,
            final(self).cabac_ivl_offset == old(self).cabac_ivl_offset,
            final(self).cabac_first_bit_flag == old(self).cabac_first_bit_flag,
            final(self).cabac_bits_outstanding == old(self).cabac_bits_outstanding,
    {
        let c = ctx.index();
        proof {
            lemma_ctx_tables_shape(c, init_type);
        }
        let shift_idx = ctx_shift_idx_at(c, init_type, ctx_idx);
        proof {
            assert(shift_idx < 16);
            assert((shift_idx >> 2u8) <= 3 && (shift_idx & 3u8) <= 3) by (bit_vector)
                requires
                    shift_idx < 16,
            ;
        }
        let shift0: u16 = ((shift_idx >> 2) + 2) as u16;
        let shift1: u16 = ((shift_idx & 3) + 3) as u16 + shift0;
        let p = self.cabac_p_state_idx[c][init_type][ctx_idx];
        let b = bin_val as u16;
        proof {
            lemma_transition_bounds(p[0], b, shift0, 1023);
            lemma_transition_bounds(p[1], b, shift1, 16383);
        }
        let p0 = p[0] - (p[0] >> shift0) + ((1023 * b) >> shift0);
        let p1 = p[1] - (p[1] >> shift1) + ((16383 * b) >> shift1);
        self.cabac_p_state_idx[c][init_type][ctx_idx] = [p0, p1];
        proof {
            let old_t = old(self).cabac_p_state_idx@;
            let new_t = self.cabac_p_state_idx@;
            assert(new_t[c as int]@[init_type as int]@ == old_t[c as int]@[init_type as int]@.update(
                ctx_idx as int,
                [p0, p1],
            ));
            assert([p0, p1] =~= transition(p, bin_val, shift_idx));
            lemma_tables_update_wf(old_t, new_t, c as int, init_type as int, ctx_idx as int, [p0, p1]);
        }
    }

    /// Codes `bin` in bypass mode.
    pub fn encode_cabac_bypass(&mut self, bins: &mut Bins, bin: bool)
        requires
            old(self).engine_ok(),
            old(self).room(*old(bins), 2),
        ensures
            old(self).bypass_coded(*final(self), *old(bins), *final(bins), bin),
            final(self).engine_ok(),
            final(bins).num_bins + final(self).cabac_bits_outstanding <= old(bins).num_bins
                + old(self).cabac_bits_outstanding + 1,
            final(self).cabac_table_state_sync == old(self).cabac_table_state_sync,
    {
        self.cabac_ivl_offset = self.cabac_ivl_offset * 2;
        if bin {
            self.cabac_ivl_offset += self.cabac_ivl_curr_range;
        }
        if self.cabac_ivl_offset >= 1024 {
            self.flush_cabac_bin(bins, true);
            self.cabac_ivl_offset -= 1024;
        } else if self.cabac_ivl_offset < 512 {
            self.flush_cabac_bin(bins, false)
        } else {
            self.cabac_ivl_offset -= 512;
            self.cabac_bits_outstanding += 1;
            proof {
                lemma_appended_nothing(*bins);
            }
        }
    }

    /// Codes `bin_val` with context variable (ctx, init_type, ctx_idx): subdivides the
    /// interval, renormalizes and updates the context state.
    pub fn encode_cabac_binary_decision(
        &mut self,
        out_bins: &mut Bins,
        bin_val: bool,
        ctx: CabacContext,
        init_type: usize,
        ctx_idx: usize,
    )
        requires
            old(self).wf(),
            old(self).engine_ok(),
            ctx_entry_ok(ctx, init_type, ctx_idx),
            old(self).room(*old(out_bins), 9),
        ensures
            old(self).decision_coded(
                *final(self),
                *old(out_bins),
                *final(out_bins),
                bin_val,
                ctx.spec_index() as int,
                init_type as int,
                ctx_idx as int,
            ),
            final(self).wf(),
            final(self).engine_ok(),
            final(out_bins).num_bins + final(self).cabac_bits_outstanding <= old(out_bins).num_bins
                + old(self).cabac_bits_outstanding + 8,
            final(self).cabac_table_state_sync == old(self).cabac_table_state_sync,
    {
        let c = ctx.index();
        let p = self.cabac_p_state_idx[c][init_type][ctx_idx];
        proof {
            let t = self.cabac_p_state_idx@;
            assert(t[c as int]@[init_type as int]@.len() == spec_ctx_init_values(c, 0).len());
            assert(p == t[c as int]@[init_type as int]@[ctx_idx as int]);
            assert(t[c as int]@[init_type as int]@[ctx_idx as int][0] <= 1023);
            assert(p[0] <= 1023 && p[1] <= 16383);
            lemma_lps_bounds(self.cabac_ivl_curr_range, (p[1] + 16 * p[0]) as u16);
        }
        let q_range_idx = self.cabac_ivl_curr_range >> 5;
        let p_state = p[1] + 16 * p[0];
        let val_mps = p_state >> 14;
        let bin_val_is_mps = val_mps == (bin_val as u16);
        let scaled = (if val_mps == 0 {
            p_state
        } else {
            32767 - p_state
        }) >> 9;
        proof {
            assert(q_range_idx * scaled <= 15 * 31) by (nonlinear_arith)
                requires
                    q_range_idx <= 15,
                    scaled <= 31,
            ;
            vstd::bits::lemma_u16_shr_is_div((q_range_idx * scaled) as u16, 1);
            vstd::arithmetic::power2::lemma2_to64();
        }
        let lps = ((q_range_idx * scaled) >> 1) + 4;
        proof {
            assert(lps == lps_range(self.cabac_ivl_curr_range, p));
            assert(4 <= lps <= 236);
        }
        if bin_val_is_mps {
            self.cabac_ivl_curr_range -= lps;
        } else {
            self.cabac_ivl_offset += self.cabac_ivl_curr_range - lps;
            self.cabac_ivl_curr_range = lps;
        }
        self.renorm_cabac_encode_engine(out_bins);
        self.transition_cabac_state(bin_val, ctx, init_type, ctx_idx);
    }

    /// Codes `bin` in bypass mode or with context variable (ctx, init_type, ctx_idx).
    pub fn encode_arithmetic(
        &mut self,
        out_bins: &mut Bins,
        bin: bool,
        ctx: CabacContext,
        ctx_idx: usize,
        bypass_flag: bool,
        init_type: usize,
    )
        requires
            old(self).wf(),
            old(self).engine_ok(),
            !bypass_flag ==> ctx_entry_ok(ctx, init_type, ctx_idx),
            old(self).room(*old(out_bins), 9),
        ensures
            bypass_flag ==> old(self).bypass_coded(*final(self), *old(out_bins), *final(out_bins), bin),
            !bypass_flag ==> old(self).decision_coded(
                *final(self),
                *old(out_bins),
                *final(out_bins),
                bin,
                ctx.spec_index() as int,
                init_type as int,
                ctx_idx as int,
            ),
            final(self).wf(),
            final(self).engine_ok(),
            final(out_bins).num_bins + final(self).cabac_bits_outstanding <= old(out_bins).num_bins
                + old(self).cabac_bits_outstanding + 8,
            final(self).cabac_table_state_sync == old(self).cabac_table_state_sync,
    {
        if bypass_flag {
            self.encode_cabac_bypass(out_bins, bin);
        } else {
            self.encode_cabac_binary_decision(out_bins, bin, ctx, init_type, ctx_idx);
        }
    }


    /// The engine coded `bin` in terminating mode from state `self`.
    pub open spec fn terminate_coded(self, next: BoolCoder, bins: Bins, next_bins: Bins, bin: bool) -> bool {
        let t = terminate(
            self.cabac_ivl_curr_range as int,
            self.cabac_ivl_offset as int,
            self.cabac_first_bit_flag,
            self.cabac_bits_outstanding as nat,
            bin,
        );
        &&& next.cabac_ivl_curr_range == t.0
        &&& next.cabac_ivl_offset == t.1
        &&& next.cabac_first_bit_flag == true
        &&& next.cabac_bits_outstanding == 0
        &&& appended(bins, next_bins, t.2)
        &&& next.cabac_p_state_idx == self.cabac_p_state_idx
        &&& next.cabac_table_state_sync == self.cabac_table_state_sync
    }

    /// Codes `bin` in terminating mode; a one ends the arithmetic code word.
    pub fn encode_arithmetic_stop_one_bit(&mut self, out_bins: &mut Bins, bin: bool)
        requires
            old(self).engine_ok(),
            old(self).room(*old(out_bins), 12),
        ensures
            old(self).terminate_coded(*final(self), *old(out_bins), *final(out_bins), bin),
            final(self).engine_ok(),
            final(out_bins).num_bins <= old(out_bins).num_bins + old(self).cabac_bits_outstanding + 11,
    {
        let ghost s0 = *self;
        let ghost b0 = *out_bins;
        self.cabac_ivl_curr_range -= 2;
        if bin {
            self.cabac_ivl_offset += self.cabac_ivl_curr_range;
            self.cabac_ivl_curr_range = 2;
            self.renorm_cabac_encode_engine(out_bins);
            let ghost r = renorm(
                2,
                s0.cabac_ivl_offset + s0.cabac_ivl_curr_range - 2,
                s0.cabac_first_bit_flag,
                s0.cabac_bits_outstanding as nat,
            );
            let ghost b1 = *out_bins;
            let o = self.cabac_ivl_offset;
            let ex_bin = (o >> 9) & 1 > 0;
            self.flush_cabac_bin(out_bins, ex_bin);
            let ghost b2 = *out_bins;
            let ex_2bins = ((o >> 7) & 3) | 1;
            proof {
                assert(((((o >> 7u16) & 3u16) | 1u16) >> 1u16) & 1u16 == (o >> 8u16) & 1u16 && (((o
                    >> 7u16) & 3u16) | 1u16) & 1u16 == 1u16) by (bit_vector);
            }
            self.flush_cabac_trailing_bin(out_bins, (ex_2bins >> 1) & 1 > 0);
            let ghost b3 = *out_bins;
            self.flush_cabac_trailing_bin(out_bins, ex_2bins & 1 > 0);
            proof {
                let x1 = put_bit_bins(r.2, r.3, ex_bin);
                let a = (o >> 8u16) & 1u16 > 0;
                assert(put_bit_bins(false, 0, a) =~= seq![a]);
                assert(put_bit_bins(false, 0, true) =~= seq![true]);
                lemma_appended_trans(b0, b1, b2, r.4, x1);
                lemma_appended_trans(b0, b2, b3, r.4 + x1, seq![a]);
                lemma_appended_trans(b0, b3, *out_bins, r.4 + x1 + seq![a], seq![true]);
                assert(r.4 + x1 + seq![a] + seq![true] =~= r.4 + x1 + seq![a, true]);
            }
        } else {
            self.renorm_cabac_encode_engine(out_bins);
        }
        self.cabac_first_bit_flag = true;
        self.cabac_bits_outstanding = 0;
    }

    /// Codes the bin of `end_of_slice_one_bit` (a one) in terminating mode.
    pub fn encode_cabac_end_one_bit(&mut self, out_bins: &mut Bins)
        requires
            old(self).engine_ok(),
            old(self).room(*old(out_bins), 12),
        ensures
            old(self).terminate_coded(*final(self), *old(out_bins), *final(out_bins), true),
            final(self).engine_ok(),
    {
        let mut bins = Bins::new();
        self.binarize_cabac_end_one_bit(&mut bins);
        let ghost s0 = *self;
        let ghost b0 = *out_bins;
        let ghost one = bins;
        proof {
            assert(one@ == seq![true]);
        }
        let mut iter = bins.into_iter();
        loop
            invariant
                iter.bins == one,
                one.num_bins == 1,
                one@ == seq![true],
                one.short_ok(),
                iter.index <= 1,
                s0.engine_ok(),
                s0.room(b0, 12),
                iter.index == 0 ==> *self == s0 && *out_bins == b0,
                iter.index == 1 ==> s0.terminate_coded(*self, b0, *out_bins, true) && self.engine_ok(),
            ensures
                s0.terminate_coded(*self, b0, *out_bins, true),
                self.engine_ok(),
            decreases 1 - iter.index,
        {
            match iter.next() {
                Some(bin) => {
                    self.encode_arithmetic_stop_one_bit(out_bins, bin);
                },
                None => {
                    break;
                },
            }
        }
    }

    /// Starts the arithmetic code: the full range and an empty low end.
    pub fn init_arithmetic_engine(&mut self)
        ensures
            final(self).cabac_ivl_curr_range == 510,
            final(self).cabac_ivl_offset == 0,
            final(self).engine_ok(),
            final(self).cabac_first_bit_flag == old(self).cabac_first_bit_flag,
            final(self).cabac_bits_outstanding == old(self).cabac_bits_outstanding,
            final(self).cabac_p_state_idx == old(self).cabac_p_state_idx,
            final(self).cabac_table_state_sync == old(self).cabac_table_state_sync,
    {
        self.cabac_ivl_curr_range = 510;
        self.cabac_ivl_offset = 0;
    }


    /// A coder with every context state zero and the engine not yet started.
    pub fn new() -> (r: BoolCoder)
        ensures
            r.wf(),
            forall|c: int, it: int, i: int|
                0 <= c < NUM_CTX_TABLES && 0 <= it < 3 && 0 <= i < spec_ctx_init_values(c as usize, 0).len()
                    ==> #[trigger] r.p_state(c, it, i) == [0u16, 0u16] && r.cabac_table_state_sync@[c]@[it]@[i]
                    == [0u16, 0u16],
            r.cabac_ivl_curr_range == 0,
            r.cabac_ivl_offset == 0,
            r.cabac_first_bit_flag == true,
            r.cabac_bits_outstanding == 0,
    {
        BoolCoder {
            cabac_p_state_idx: zero_tables(),
            cabac_table_state_sync: zero_tables(),
            cabac_ivl_curr_range: 0,
            cabac_ivl_offset: 0,
            cabac_first_bit_flag: true,
            cabac_bits_outstanding: 0,
        }
    }

    /// The initialization type of a slice of type `slice_type`.
    pub fn get_init_type(slice_type: SliceType, cabac_init_flag: bool) -> (r: usize)
        ensures
            r == init_type_of(slice_type, cabac_init_flag),
            r < 3,
    {
        match slice_type {
            SliceType::I => 0,
            SliceType::P => {
                if cabac_init_flag {
                    2
                } else {
                    1
                }
            },
            SliceType::B => {
                if cabac_init_flag {
                    1
                } else {
                    2
                }
            },
        }
    }

    /// Initializes every context variable for slice QP `slice_qp_y`.
    pub fn init_ctx_table(&mut self, slice_qp_y: isize)
        requires
            old(self).wf(),
        ensures
            final(self).wf(),
            forall|c: int, it: int|
                0 <= c < NUM_CTX_TABLES && 0 <= it < 3 ==> #[trigger] final(self).cabac_p_state_idx@[c]@[it]@
                    == init_row(c as usize, it as usize, slice_qp_y),
            final(self).cabac_table_state_sync == old(self).cabac_table_state_sync,
            final(self).cabac_ivl_curr_range == old(self).cabac_ivl_curr_range,
            final(self).cabac_ivl_offset == old(self).cabac_ivl_offset,
            final(self).cabac_first_bit_flag == old(self).cabac_first_bit_flag,
            final(self).cabac_bits_outstanding == old(self).cabac_bits_outstanding,
    {
        self.cabac_p_state_idx = init_tables(slice_qp_y);
    }

    /// Stores the context states for a later `sync_ctx_table`.
    pub fn storage_ctx_table(&mut self)
        requires
            old(self).wf(),
        ensures
            final(self).wf(),
            forall|c: int, it: int|
                0 <= c < NUM_CTX_TABLES && 0 <= it < 3 ==> #[trigger] final(self).cabac_table_state_sync@[c]@[it]@
                    == old(self).cabac_p_state_idx@[c]@[it]@,
            final(self).cabac_p_state_idx == old(self).cabac_p_state_idx,
            final(self).cabac_ivl_curr_range == old(self).cabac_ivl_curr_range,
            final(self).cabac_ivl_offset == old(self).cabac_ivl_offset,
            final(self).cabac_first_bit_flag == old(self).cabac_first_bit_flag,
            final(self).cabac_bits_outstanding == old(self).cabac_bits_outstanding,
    {
        self.cabac_table_state_sync = copy_tables(&self.cabac_p_state_idx);
    }

    /// Restores the context states stored by `storage_ctx_table`.
    pub fn sync_ctx_table(&mut self)
        requires
            old(self).wf(),
        ensures
            final(self).wf(),
            forall|c: int, it: int|
                0 <= c < NUM_CTX_TABLES && 0 <= it < 3 ==> #[trigger] final(self).cabac_p_state_idx@[c]@[it]@
                    == old(self).cabac_table_state_sync@[c]@[it]@,
            final(self).cabac_table_state_sync == old(self).cabac_table_state_sync,
            final(self).cabac_ivl_curr_range == old(self).cabac_ivl_curr_range,
            final(self).cabac_ivl_offset == old(self).cabac_ivl_offset,
            final(self).cabac_first_bit_flag == old(self).cabac_first_bit_flag,
            final(self).cabac_bits_outstanding == old(self).cabac_bits_outstanding,
    {
        self.cabac_p_state_idx = copy_tables(&self.cabac_table_state_sync);
    }

}

/// The 0-th order Exp-Golomb code of a value identifies the value: two values with
/// the same code are equal.
pub proof fn law_exp_golomb_identifies_value(a: u64, b: u64)
    requires
        a < u64::MAX,
        b < u64::MAX,
        ue_bits(a) == ue_bits(b),
    ensures
        a == b,
{
    lemma_ue_len(a);
    lemma_ue_len(b);
    lemma_bit_length_bounds((a + 1) as nat);
    lemma_bit_length_bounds((b + 1) as nat);
    let na = (bit_length((a + 1) as nat) - 1) as nat;
    let nb = (bit_length((b + 1) as nat) - 1) as nat;
    let ca = ue_bits(a);
    let cb = ue_bits(b);
    if na < nb {
        assert(ca[na as int] == true);
        assert(cb[na as int] == false);
    } else if nb < na {
        assert(cb[nb as int] == true);
        assert(ca[nb as int] == false);
    }
    let n = na;
    let wa = (a + 1 - pow2(n)) as u64;
    let wb = (b + 1 - pow2(n)) as u64;
    assert(ca.subrange((n + 1) as int, ca.len() as int) =~= word_bits(wa, n));
    assert(cb.subrange((n + 1) as int, cb.len() as int) =~= word_bits(wb, n));
    vstd::arithmetic::power2::lemma_pow2_unfold(n + 1);
    lemma_fits_pow2(wa, n);
    lemma_fits_pow2(wb, n);
    crate::bits::lemma_word_bits_injective(wa, wb, n);
}

/// Restoring the context states after storing them gives back the stored states:
/// `c1` stored the states of `c0`, `c2` kept what `c1` stored, and `c3` restored
/// the states `c2` held in store.
pub proof fn law_sync_restores_stored_states(c0: BoolCoder, c1: BoolCoder, c2: BoolCoder, c3: BoolCoder)
    requires
        forall|c: int, it: int|
            0 <= c < NUM_CTX_TABLES && 0 <= it < 3 ==> #[trigger] c1.cabac_table_state_sync@[c]@[it]@
                == c0.cabac_p_state_idx@[c]@[it]@,
        c2.cabac_table_state_sync == c1.cabac_table_state_sync,
        forall|c: int, it: int|
            0 <= c < NUM_CTX_TABLES && 0 <= it < 3 ==> #[trigger] c3.cabac_p_state_idx@[c]@[it]@
                == c2.cabac_table_state_sync@[c]@[it]@,
    ensures
        forall|c: int, it: int|
            0 <= c < NUM_CTX_TABLES && 0 <= it < 3 ==> #[trigger] c3.cabac_p_state_idx@[c]@[it]@
                == c0.cabac_p_state_idx@[c]@[it]@,
{
    assert forall|c: int, it: int| 0 <= c < NUM_CTX_TABLES && 0 <= it < 3 implies #[trigger] c3.cabac_p_state_idx@[c]@[it]@
        == c0.cabac_p_state_idx@[c]@[it]@ by {
        assert(c3.cabac_p_state_idx@[c]@[it]@ == c2.cabac_table_state_sync@[c]@[it]@);
        assert(c1.cabac_table_state_sync@[c]@[it]@ == c0.cabac_p_state_idx@[c]@[it]@);
    }
}

} // verus!
