//! Binarization of the coefficient levels: Rice parameter derivation from the
//! neighbouring levels, and the prefix and escape codes of the remainders.
use crate::bins::{appended, lemma_appended_nothing, lemma_appended_trans, Bins};
use crate::bits::{repeat_bit, word_bits};
use crate::bool_coder::{legk_bits, lim_pre, tr_bits, BoolCoder};
use crate::cabac_contexts::{c_rice_params, spec_c_rice_param};
use crate::common::Vec2d;
use crate::ctu::TransformUnit;
use vstd::arithmetic::power2::pow2;
use vstd::prelude::*;

verus! {

/// The sum of the absolute levels of the neighbours of (x, y) that the Rice parameter
/// looks at, inside a `w` by `h` block: (x+1, y), (x+2, y), (x+1, y+1), (x, y+1) and
/// (x, y+2).
pub open spec fn template_sum(a: Vec2d<usize>, x: int, y: int, w: int, h: int) -> int {
    (if x < w - 1 {
        a.at(y, x + 1) + (if x < w - 2 { a.at(y, x + 2) as int } else { 0 }) + (if y < h - 1 {
            a.at(y + 1, x + 1) as int
        } else {
            0
        })
    } else {
        0
    }) + (if y < h - 1 {
        a.at(y + 1, x) + (if y < h - 2 { a.at(y + 2, x) as int } else { 0 })
    } else {
        0
    })
}

/// `v` limited to `lo..=hi`.
pub open spec fn clamp(v: int, lo: int, hi: int) -> int {
    if v < lo {
        lo
    } else if v > hi {
        hi
    } else {
        v
    }
}

/// The Rice parameter at (x, y): chosen by the neighbouring levels less five times
/// `base_level`, limited to 0 to 31.
pub open spec fn rice_param(a: Vec2d<usize>, base_level: usize, x: int, y: int, w: int, h: int) -> usize {
    spec_c_rice_param(clamp(template_sum(a, x, y, w, h) - 5 * base_level, 0, 31))
}

/// The level of the neighbour `(dx, dy)` away from (x, y) when it lies inside a
/// `w` by `h` block, else 0.
pub open spec fn level_if_inside(a: Vec2d<usize>, x: int, y: int, dx: int, dy: int, w: int, h: int) -> int {
    if 0 <= x + dx < w && 0 <= y + dy < h {
        a.at(y + dy, x + dx) as int
    } else {
        0
    }
}

/// The template of a position is its five neighbours one and two to the right, one
/// and two below, and one diagonally below right: the template sum adds the levels
/// of those that lie inside the block.
pub proof fn law_template_is_the_five_right_and_below_neighbours(a: Vec2d<usize>, x: int, y: int, w: int, h: int)
    requires
        0 <= x < w,
        0 <= y < h,
    ensures
        template_sum(a, x, y, w, h) == level_if_inside(a, x, y, 1, 0, w, h) + level_if_inside(a, x, y, 2, 0, w, h)
            + level_if_inside(a, x, y, 1, 1, w, h) + level_if_inside(a, x, y, 0, 1, w, h) + level_if_inside(a, x, y, 0, 2, w, h),
{
}

/// The Rice parameter of a level counts the base level five times against the sum
/// of its five template neighbours: with `t` that sum less five times the base
/// level, it is 0 below 7, 1 below 14, 2 below 28 and 3 from 28 on; so two
/// positions whose sums less five times their base levels agree get the same
/// parameter.
pub proof fn law_rice_parameter_weighs_base_level_five_times(
    a1: Vec2d<usize>,
    b1: usize,
    x1: int,
    y1: int,
    a2: Vec2d<usize>,
    b2: usize,
    x2: int,
    y2: int,
    w: int,
    h: int,
)
    ensures
        ({
            let t = template_sum(a1, x1, y1, w, h) - 5 * b1;
            rice_param(a1, b1, x1, y1, w, h) == if t < 7 {
                0usize
            } else if t < 14 {
                1usize
            } else if t < 28 {
                2usize
            } else {
                3usize
            }
        }),
        template_sum(a1, x1, y1, w, h) - 5 * b1 == template_sum(a2, x2, y2, w, h) - 5 * b2 ==> rice_param(a1, b1, x1, y1, w, h)
            == rice_param(a2, b2, x2, y2, w, h),
{
}

/// The levels around (x, y) of a `2^log2_w` by `2^log2_h` block can be read from `a`
/// and summed.
pub open spec fn template_ok(a: Vec2d<usize>, base_level: usize, x: usize, y: usize, log2_w: usize, log2_h: usize) -> bool {
    &&& a.wf()
    &&& log2_w < usize::BITS && log2_h < usize::BITS
    &&& x < pow2(log2_w as nat) <= a.width
    &&& y < pow2(log2_h as nat) <= a.height
    &&& template_sum(a, x as int, y as int, pow2(log2_w as nat) as int, pow2(log2_h as nat) as int) <= isize::MAX
    &&& 5 * base_level <= isize::MAX
}

/// The binarization of an absolute level remainder with Rice parameter `k`: a
/// truncated Rice prefix below `6 << k`, else six ones and a limited Exp-Golomb
/// escape code of order `k + 1` for the excess.
pub open spec fn abs_rem_bits(v: nat, k: nat) -> Seq<bool> {
    let c_max = 6 * pow2(k);
    if v < c_max {
        tr_bits(v, c_max, k)
    } else {
        repeat_bit(true, 6) + legk_bits((v - c_max) as nat, k + 1, 11, 15)
    }
}

/// An absolute level remainder (or `dec_abs_level`) with Rice parameter `k` (at
/// most 3) below `6 * 2^k` is coded as `v / 2^k` ones, a zero and the `k` low bits of
/// `v`; from `6 * 2^k` on, as six ones and the excess over `6 * 2^k` in the limited
/// Exp-Golomb code of order `k + 1` (prefix of at most 11 ones, 15-bit escape).
pub proof fn law_level_remainder_is_six_rice_steps_then_escape(v: nat, k: nat)
    requires
        k <= 3,
    ensures
        v < 6 * pow2(k) ==> abs_rem_bits(v, k) == repeat_bit(true, v / pow2(k)).push(false) + word_bits(
            (v % pow2(k)) as u64,
            k,
        ),
        v >= 6 * pow2(k) ==> abs_rem_bits(v, k) == repeat_bit(true, 6) + legk_bits((v - 6 * pow2(k)) as nat, k + 1, 11, 15),
{
    lemma_rice_small(k);
    vstd::arithmetic::div_mod::lemma_div_by_multiple(6, pow2(k) as int);
    if v < 6 * pow2(k) {
        vstd::arithmetic::div_mod::lemma_div_by_multiple_is_strongly_ordered(v as int, 6 * pow2(k) as int, 6, pow2(k) as int);
        if k == 0 {
            assert(word_bits((v % pow2(k)) as u64, k) =~= Seq::<bool>::empty());
            assert(tr_bits(v, 6 * pow2(k), k) =~= repeat_bit(true, v / pow2(k)).push(false));
        }
    }
}

/// Appends the bins of `v`.
fn push_all(out_bins: &mut Bins, v: &Vec<bool>)
    requires
        old(out_bins).num_bins + v@.len() <= usize::MAX,
    ensures
        appended(*old(out_bins), *final(out_bins), v@),
{
    let ghost b0 = *out_bins;
    proof {
        lemma_appended_nothing(b0);
        assert(v@.take(0) =~= Seq::<bool>::empty());
    }
    let mut i: usize = 0;
    while i < v.len()
        invariant
            i <= v@.len(),
            b0.num_bins + v@.len() <= usize::MAX,
            appended(b0, *out_bins, v@.take(i as int)),
        decreases v@.len() - i,
    {
        let ghost prev = *out_bins;
        out_bins.push_bin(v[i]);
        proof {
            lemma_appended_trans(b0, prev, *out_bins, v@.take(i as int), seq![v@[i as int]]);
            assert(v@.take(i as int) + seq![v@[i as int]] =~= v@.take(i + 1));
        }
        i += 1;
    }
    proof {
        assert(v@.take(v@.len() as int) =~= v@);
    }
}

/// A level remainder with a Rice parameter of at most 3 takes at most 64 bins.
pub proof fn lemma_abs_rem_bits_len(v: nat, k: nat)
    requires
        k <= 3,
    ensures
        abs_rem_bits(v, k).len() <= 64,
{
    lemma_rice_small(k);
    if v < 6 * pow2(k) {
        lemma_tr_len(v, k);
    } else {
        lemma_legk_len((v - 6 * pow2(k)) as nat, k + 1);
        lemma_repeat_len(6);
    }
}

proof fn lemma_lim_pre_le(code: nat, p: nat, m: nat)
    requires
        p <= m,
    ensures
        lim_pre(code, p, m) <= m,
    decreases m - p,
{
    if p < m && code > pow2(p + 1) - 2 {
        lemma_lim_pre_le(code, p + 1, m);
    }
}

/// The escape code of a level is at most 28 bins long.
proof fn lemma_legk_len(v: nat, k: nat)
    requires
        k <= 4,
    ensures
        legk_bits(v, k, 11, 15).len() <= 28,
{
    let code = v / pow2(k);
    lemma_lim_pre_le(code, 0, 11);
    let pre: nat = lim_pre(code, 0, 11);
    lemma_repeat_len(pre);
}

proof fn lemma_repeat_len(n: nat)
    ensures
        repeat_bit(true, n).len() == n,
{
}

/// A truncated Rice prefix with at most 6 unary ones and `k` suffix bits.
proof fn lemma_tr_len(v: nat, k: nat)
    requires
        k <= 3,
    ensures
        tr_bits(v, 6 * pow2(k), k).len() <= 7 + k,
{
    lemma_rice_small(k);
    vstd::arithmetic::div_mod::lemma_div_by_multiple(6, pow2(k) as int);
}

proof fn lemma_rice_small(k: nat)
    requires
        k <= 3,
    ensures
        pow2(k) <= 8,
        pow2(k) >= 1,
{
    vstd::arithmetic::power2::lemma2_to64();
    crate::bits::lemma_pow2_le(k, 3);
}

impl BoolCoder {
    /// The Rice parameter at (x_c, y_c) of a `2^log2_tb_width` by `2^log2_tb_height`
    /// block whose absolute levels so far are `abs_level`; for a `base_level` of 0 it
    /// also records, as entry `n` of `zero_pos`, the level coded as zero: 1 (or 2 in
    /// quantizer states 2 and 3) shifted by the parameter.
    pub fn derive_rice_parameter(
        &self,
        base_level: usize,
        x_c: usize,
        y_c: usize,
        log2_tb_width: usize,
        log2_tb_height: usize,
        n: usize,
        abs_level: &Vec2d<usize>,
        q_state: usize,
        zero_pos: &mut Vec<usize>,
    ) -> (c_rice_param: usize)
        requires
            template_ok(*abs_level, base_level, x_c, y_c, log2_tb_width, log2_tb_height),
            base_level == 0 ==> n < old(zero_pos)@.len(),
        ensures
            c_rice_param == rice_param(
                *abs_level,
                base_level,
                x_c as int,
                y_c as int,
                pow2(log2_tb_width as nat) as int,
                pow2(log2_tb_height as nat) as int,
            ),
            c_rice_param <= 3,
            base_level == 0 ==> final(zero_pos)@ == old(zero_pos)@.update(
                n as int,
                ((if q_state < 2 { 1int } else { 2 }) * pow2(c_rice_param as nat)) as usize,
            ),
            base_level != 0 ==> final(zero_pos)@ == old(zero_pos)@,
    {
        proof {
            crate::bits::lemma_usize_shl_one(log2_tb_width);
            crate::bits::lemma_usize_shl_one(log2_tb_height);
            vstd::bits::lemma_usize_pow2_no_overflow(log2_tb_width as nat);
            vstd::bits::lemma_usize_pow2_no_overflow(log2_tb_height as nat);
        }
        let w: usize = 1 << log2_tb_width;
        let h: usize = 1 << log2_tb_height;
        let ghost a = *abs_level;
        let mut loc_sum_abs: usize = 0;
        if x_c < w - 1 {
            loc_sum_abs += abs_level.get(y_c, x_c + 1);
            if x_c < w - 2 {
                loc_sum_abs += abs_level.get(y_c, x_c + 2);
            }
            if y_c < h - 1 {
                loc_sum_abs += abs_level.get(y_c + 1, x_c + 1);
            }
        }
        if y_c < h - 1 {
            loc_sum_abs += abs_level.get(y_c + 1, x_c);
            if y_c < h - 2 {
                loc_sum_abs += abs_level.get(y_c + 2, x_c);
            }
        }
        assert(loc_sum_abs == template_sum(a, x_c as int, y_c as int, w as int, h as int));
        let d: isize = loc_sum_abs as isize - base_level as isize * 5;
        let clamped: usize = if d < 0 {
            0
        } else if d > 31 {
            31
        } else {
            d as usize
        };
        let c_rice_param = c_rice_params(clamped);
        if base_level == 0 {
            let z: usize = if q_state < 2 {
                1
            } else {
                2
            };
            proof {
                lemma_rice_small(c_rice_param as nat);
                vstd::bits::lemma_usize_shl_is_mul(z, c_rice_param);
            }
            zero_pos.set(n, z << c_rice_param);
        }
        c_rice_param
    }

    /// Appends the binarization of `abs_remainder` with Rice parameter `c_rice_param`.
    fn encode_level_with_rice(&self, out_bins: &mut Bins, abs_remainder: usize, c_rice_param: usize)
        requires
            c_rice_param <= 3,
            old(out_bins).num_bins + 64 <= usize::MAX,
        ensures
            appended(*old(out_bins), *final(out_bins), abs_rem_bits(abs_remainder as nat, c_rice_param as nat)),
    {
        let ghost k = c_rice_param as nat;
        proof {
            lemma_rice_small(k);
            vstd::bits::lemma_usize_shl_is_mul(6, c_rice_param);
        }
        let c_max: usize = 6 << c_rice_param;
        let prefix_val = if c_max < abs_remainder {
            c_max
        } else {
            abs_remainder
        };
        let mut prefix_bins = self.encode_trancated_rice_to_vec(prefix_val, c_max, c_rice_param);
        let ghost tr = prefix_bins@;
        proof {
            vstd::arithmetic::div_mod::lemma_div_by_multiple(6, pow2(k) as int);
            if abs_remainder < c_max {
                vstd::arithmetic::div_mod::lemma_div_is_ordered(abs_remainder as int, c_max as int, pow2(k) as int);
                assert((abs_remainder as nat / pow2(k)) < 6) by {
                    vstd::arithmetic::div_mod::lemma_div_by_multiple_is_strongly_ordered(
                        abs_remainder as int,
                        c_max as int,
                        6,
                        pow2(k) as int,
                    );
                }
                let p = abs_remainder as nat / pow2(k);
                assert(tr[p as int] == false);
            } else {
                assert(tr =~= repeat_bit(true, 6));
            }
        }
        let mut all_ones = prefix_bins.len() == 6;
        let mut i: usize = 0;
        while i < prefix_bins.len()
            invariant
                i <= prefix_bins@.len(),
                prefix_bins@ == tr,
                all_ones == (tr.len() == 6 && forall|j: int| 0 <= j < i ==> tr[j]),
            decreases prefix_bins@.len() - i,
        {
            all_ones = all_ones && prefix_bins[i];
            i += 1;
        }
        proof {
            if abs_remainder < c_max {
                let p = abs_remainder as nat / pow2(k);
                assert(!tr[p as int]);
                assert(!all_ones);
            } else {
                assert(all_ones);
            }
        }
        if all_ones {
            let suffix_val = abs_remainder - c_max;
            let suffix_bins = self.encode_limited_kth_order_exp_golomb_to_vec(suffix_val, c_rice_param + 1, 11, 15);
            proof {
                lemma_legk_len(suffix_val as nat, (c_rice_param + 1) as nat);
            }
            let ghost prev = *out_bins;
            push_all(out_bins, &prefix_bins);
            let ghost mid = *out_bins;
            push_all(out_bins, &suffix_bins);
            proof {
                lemma_appended_trans(prev, mid, *out_bins, prefix_bins@, suffix_bins@);
            }
        } else {
            proof {
                lemma_tr_len(abs_remainder as nat, k);
            }
            push_all(out_bins, &prefix_bins);
        }
    }

    /// Appends `abs_remainder` of the coefficient at (x_c, y_c), scan position `n`,
    /// of component `c_idx` of `tu`: with Rice parameter 1 under transform skip
    /// residual coding, else the derived parameter for a base level of 4.
    pub fn encode_abs_remainder(
        &mut self,
        out_bins: &mut Bins,
        abs_remainder: usize,
        tu: &TransformUnit,
        c_idx: usize,
        x_c: usize,
        y_c: usize,
        n: usize,
        transform_skip_flag: bool,
        ts_residual_coding_disabled_flag: bool,
        abs_level: &Vec2d<usize>,
        q_state: usize,
        zero_pos: &mut Vec<usize>,
    )
        requires
            c_idx < 3,
            old(out_bins).num_bins + 64 <= usize::MAX,
            !(transform_skip_flag && !ts_residual_coding_disabled_flag) ==> template_ok(
                *abs_level,
                4,
                x_c,
                y_c,
                tu.spec_log2_tb_size(c_idx).0,
                tu.spec_log2_tb_size(c_idx).1,
            ),
        ensures
            ({
                let (lw, lh) = tu.spec_log2_tb_size(c_idx);
                let k = if transform_skip_flag && !ts_residual_coding_disabled_flag {
                    1
                } else {
                    rice_param(*abs_level, 4, x_c as int, y_c as int, pow2(lw as nat) as int, pow2(lh as nat) as int)
                };
                appended(*old(out_bins), *final(out_bins), abs_rem_bits(abs_remainder as nat, k as nat))
            }),
            final(zero_pos)@ == old(zero_pos)@,
            *final(self) == *old(self),
    {
        let c_rice_param = if transform_skip_flag && !ts_residual_coding_disabled_flag {
            1
        } else {
            let (lw, lh) = tu.get_log2_tb_size(c_idx);
            self.derive_rice_parameter(4, x_c, y_c, lw, lh, n, abs_level, q_state, zero_pos)
        };
        self.encode_level_with_rice(out_bins, abs_remainder, c_rice_param);
    }

    /// Appends `dec_abs_level` of the coefficient at (x_c, y_c), scan position `n`, of
    /// a `2^log2_tb_width` by `2^log2_tb_height` block, with the Rice parameter
    /// derived for a base level of 0 (which records the zero position `n`).
    pub fn encode_dec_abs_level(
        &mut self,
        out_bins: &mut Bins,
        dec_abs_level: usize,
        n: usize,
        x_c: usize,
        y_c: usize,
        log2_tb_width: usize,
        log2_tb_height: usize,
        abs_level: &Vec2d<usize>,
        q_state: usize,
        zero_pos: &mut Vec<usize>,
    )
        requires
            old(out_bins).num_bins + 64 <= usize::MAX,
            template_ok(*abs_level, 0, x_c, y_c, log2_tb_width, log2_tb_height),
            n < old(zero_pos)@.len(),
        ensures
            ({
                let k = rice_param(
                    *abs_level,
                    0,
                    x_c as int,
                    y_c as int,
                    pow2(log2_tb_width as nat) as int,
                    pow2(log2_tb_height as nat) as int,
                );
                &&& appended(*old(out_bins), *final(out_bins), abs_rem_bits(dec_abs_level as nat, k as nat))
                &&& final(zero_pos)@ == old(zero_pos)@.update(
                    n as int,
                    ((if q_state < 2 { 1int } else { 2 }) * pow2(k as nat)) as usize,
                )
            }),
            *final(self) == *old(self),
    {
        let c_rice_param = self.derive_rice_parameter(
            0,
            x_c,
            y_c,
            log2_tb_width,
            log2_tb_height,
            n,
            abs_level,
            q_state,
            zero_pos,
        );
        self.encode_level_with_rice(out_bins, dec_abs_level, c_rice_param);
    }
}

} // verus!
