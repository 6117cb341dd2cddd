//! The coding order of the coefficients of a transform block, and the last
//! significant coefficient in it.
use crate::bins::Bins;
use crate::bits::{bit_length, fits, word_bits};
use crate::bool_coder::{init_type_of, tr_bits, BoolCoder};
use crate::cabac_contexts::CabacContext;
use crate::common::{SliceType, Vec2d};
use crate::ctu::{diag_line_from, diag_scan, diag_scan_order, sb_size, TransformUnit};
use crate::ctu_encoder::CtuEncoder;
use crate::element_coding::{coded_in, last_prefix_ok, last_prefix_sel, zo_tb_size};
use crate::syntax_coding::{bin_ctx_ok, bins_coded};
use vstd::arithmetic::power2::pow2;
use vstd::prelude::*;

verus! {

/// The diagonal scan of a `2^lw` by `2^lh` block.
pub open spec fn pow2_scan(lw: usize, lh: usize) -> Seq<(usize, usize)> {
    let w = pow2(lw as nat) as int;
    let h = pow2(lh as nat) as int;
    diag_scan(w, h, w + h - 1)
}

/// Position `i` of the coding order of a `2^lw` by `2^lh` block cut into `2^lsw` by
/// `2^lsh` sub-blocks: with `m` the number of positions of a sub-block, sub-block
/// `i / m` in the diagonal order of the sub-blocks, and in it position `i % m` of the
/// diagonal order.
pub open spec fn coeff_scan_pos(lw: usize, lh: usize, lsw: usize, lsh: usize, i: int) -> (usize, usize) {
    let sw = pow2(lsw as nat) as int;
    let sh = pow2(lsh as nat) as int;
    let m = pow2_scan(lsw, lsh).len() as int;
    let s = pow2_scan((lw - lsw) as usize, (lh - lsh) as usize)[i / m];
    let c = pow2_scan(lsw, lsh)[i % m];
    ((s.0 * sw + c.0) as usize, (s.1 * sh + c.1) as usize)
}

/// The number of positions of the coding order of a `2^lw` by `2^lh` block cut into
/// `2^lsw` by `2^lsh` sub-blocks.
pub open spec fn coeff_scan_len(lw: usize, lh: usize, lsw: usize, lsh: usize) -> int {
    (pow2_scan(lsw, lsh).len() * pow2_scan((lw - lsw) as usize, (lh - lsh) as usize).len()) as int
}

/// The coefficient at `p` of plane `q` is zero.
pub open spec fn zero_at(q: Vec2d<i16>, p: (usize, usize)) -> bool {
    q.at(p.1 as int, p.0 as int) == 0
}

/// The index in coding order of the last nonzero coefficient of `q` among the first
/// `n` positions, or 0 where all of them are zero.
pub open spec fn last_sig_in(q: Vec2d<i16>, lw: usize, lh: usize, lsw: usize, lsh: usize, n: int) -> int
    decreases n,
{
    if n <= 1 {
        0
    } else if !zero_at(q, coeff_scan_pos(lw, lh, lsw, lsh, n - 1)) {
        n - 1
    } else {
        last_sig_in(q, lw, lh, lsw, lsh, n - 1)
    }
}

/// Among the first `n` positions of the coding order, the last significant index
/// is a position whose coefficient is nonzero (unless it is the first position),
/// after which every coefficient is zero.
pub proof fn law_last_significant_index_is_the_last_nonzero(q: Vec2d<i16>, lw: usize, lh: usize, lsw: usize, lsh: usize, n: int)
    requires
        n >= 1,
    ensures
        ({
            let j = last_sig_in(q, lw, lh, lsw, lsh, n);
            let pj = coeff_scan_pos(lw, lh, lsw, lsh, j);
            &&& 0 <= j < n
            &&& j > 0 ==> q.at(pj.1 as int, pj.0 as int) != 0
            &&& forall|i: int|
                j < i < n ==> q.at((#[trigger] coeff_scan_pos(lw, lh, lsw, lsh, i)).1 as int, coeff_scan_pos(lw, lh, lsw, lsh, i).0 as int)
                    == 0
        }),
    decreases n,
{
    if n > 1 && zero_at(q, coeff_scan_pos(lw, lh, lsw, lsh, n - 1)) {
        law_last_significant_index_is_the_last_nonzero(q, lw, lh, lsw, lsh, n - 1);
    }
}

/// The transform block of component `c_idx` of `tu` can be scanned: its sub-blocks fit
/// in it, at most 16 of them a side, and its coefficient plane covers it.
pub open spec fn scan_ok(tu: TransformUnit, c_idx: usize) -> bool {
    let (lw, lh) = tu.spec_log2_tb_size(c_idx);
    let (lsw, lsh) = sb_size(lw, lh);
    let q = tu.quantized_transformed_coeffs@[c_idx as int];
    &&& c_idx < 3
    &&& c_idx < tu.quantized_transformed_coeffs@.len()
    &&& lw + lh <= usize::MAX
    &&& lsw <= lw && lsh <= lh
    &&& lw - lsw <= 4 && lh - lsh <= 4
    &&& q.wf()
    &&& pow2(lw as nat) <= q.width
    &&& pow2(lh as nat) <= q.height
}

proof fn lemma_diag_line_in_block(w: int, h: int, d: int, x: int)
    requires
        0 <= w <= 16,
        0 <= h <= 16,
    ensures
        forall|k: int|
            0 <= k < diag_line_from(w, h, d, x).len() ==> (#[trigger] diag_line_from(w, h, d, x)[k]).0 < w
                && diag_line_from(w, h, d, x)[k].1 < h,
    decreases d + 1 - x,
{
    if x > d || x < 0 {
    } else {
        lemma_diag_line_in_block(w, h, d, x + 1);
        let rest = diag_line_from(w, h, d, x + 1);
        if x < w && d - x < h {
            assert forall|k: int| 0 <= k < diag_line_from(w, h, d, x).len() implies (
            #[trigger] diag_line_from(w, h, d, x)[k]).0 < w && diag_line_from(w, h, d, x)[k].1 < h by {
                if k > 0 {
                    assert(diag_line_from(w, h, d, x)[k] == rest[k - 1]);
                }
            }
        }
    }
}

proof fn lemma_diag_scan_in_block(w: int, h: int, n: int)
    requires
        0 <= w <= 16,
        0 <= h <= 16,
    ensures
        forall|k: int|
            0 <= k < diag_scan(w, h, n).len() ==> (#[trigger] diag_scan(w, h, n)[k]).0 < w && diag_scan(
                w,
                h,
                n,
            )[k].1 < h,
    decreases n,
{
    if n > 0 {
        lemma_diag_scan_in_block(w, h, n - 1);
        lemma_diag_line_in_block(w, h, n - 1, 0);
        let a = diag_scan(w, h, n - 1);
        let b = diag_line_from(w, h, n - 1, 0);
        assert forall|k: int| 0 <= k < diag_scan(w, h, n).len() implies (#[trigger] diag_scan(w, h, n)[k]).0 < w
            && diag_scan(w, h, n)[k].1 < h by {
            if k >= a.len() {
                assert(diag_scan(w, h, n)[k] == b[k - a.len()]);
            } else {
                assert(diag_scan(w, h, n)[k] == a[k]);
            }
        }
    }
}

proof fn lemma_diag_line_len(w: int, h: int, d: int, x: int)
    ensures
        diag_line_from(w, h, d, x).len() <= if x <= d && x >= 0 { d + 1 - x } else { 0 },
        0 <= x <= d && d < w + h - 1 && x < w && d - x < h ==> diag_line_from(w, h, d, x).len() >= 1,
    decreases d + 1 - x,
{
    if x > d || x < 0 {
    } else {
        lemma_diag_line_len(w, h, d, x + 1);
    }
}

proof fn lemma_diag_scan_len(w: int, h: int, n: int)
    requires
        w >= 1,
        h >= 1,
    ensures
        diag_scan(w, h, n).len() <= if n >= 0 { n * n } else { 0 },
        n >= 1 ==> diag_scan(w, h, n).len() >= 1,
    decreases n,
{
    if n > 0 {
        lemma_diag_scan_len(w, h, n - 1);
        lemma_diag_line_len(w, h, n - 1, 0);
        lemma_diag_line_len(w, h, 0, 0);
        assert((n - 1) * (n - 1) + n <= n * n) by (nonlinear_arith)
            requires
                n >= 1,
        ;
        if n == 1 {
            assert(diag_scan(w, h, 0).len() == 0);
        }
    }
}

/// The diagonal scan of a `2^lw` by `2^lh` block, `lw` and `lh` at most 4, has from 1
/// to 961 entries, each inside the block.
proof fn lemma_pow2_scan_shape(lw: usize, lh: usize)
    requires
        lw <= 4,
        lh <= 4,
    ensures
        1 <= pow2_scan(lw, lh).len() <= 961,
        forall|k: int|
            0 <= k < pow2_scan(lw, lh).len() ==> (#[trigger] pow2_scan(lw, lh)[k]).0 < pow2(lw as nat)
                && pow2_scan(lw, lh)[k].1 < pow2(lh as nat),
{
    vstd::arithmetic::power2::lemma2_to64();
    crate::bits::lemma_pow2_le(lw as nat, 4);
    crate::bits::lemma_pow2_le(lh as nat, 4);
    vstd::arithmetic::power2::lemma_pow2_pos(lw as nat);
    vstd::arithmetic::power2::lemma_pow2_pos(lh as nat);
    let w = pow2(lw as nat) as int;
    let h = pow2(lh as nat) as int;
    lemma_diag_scan_in_block(w, h, w + h - 1);
    lemma_diag_scan_len(w, h, w + h - 1);
    assert((w + h - 1) * (w + h - 1) <= 961) by (nonlinear_arith)
        requires
            1 <= w <= 16,
            1 <= h <= 16,
    ;
}

/// The position of the last nonzero coefficient of component `c_idx` of `tu` in
/// coding order, (0, 0) where every coefficient is zero.
pub open spec fn last_sig_pos(tu: TransformUnit, c_idx: usize) -> (usize, usize) {
    let (lw, lh) = tu.spec_log2_tb_size(c_idx);
    let (lsw, lsh) = sb_size(lw, lh);
    let q = tu.quantized_transformed_coeffs@[c_idx as int];
    coeff_scan_pos(lw, lh, lsw, lsh, last_sig_in(q, lw, lh, lsw, lsh, coeff_scan_len(lw, lh, lsw, lsh)))
}

/// The prefix and suffix coding a last significant coordinate `v`: `v` itself below
/// 4; else, with `k` the position of the top bit of `v`, `2k` plus the bit below the
/// top one, and the value of the `k - 1` bits under those two.
pub open spec fn last_pos_prefix_suffix(v: nat) -> (nat, nat) {
    if v <= 3 {
        (v, 0)
    } else {
        let k = (bit_length(v) - 1) as nat;
        let top = v / pow2((k - 1) as nat);
        ((2 * k + top % 2) as nat, (v - top * pow2((k - 1) as nat)) as nat)
    }
}

/// The coordinate a prefix and suffix stand for: the prefix below 4, else `2` or `3`
/// (by the low bit of the prefix) times `2^(prefix / 2 - 1)`, plus the suffix.
pub open spec fn last_pos_value(prefix: nat, suffix: nat) -> nat {
    if prefix <= 3 {
        prefix
    } else {
        ((2 + prefix % 2) * pow2((prefix / 2 - 1) as nat) + suffix) as nat
    }
}

/// A last significant coordinate is recovered from its prefix and suffix, and above
/// 3 its suffix fits in `prefix / 2 - 1` bits.
pub proof fn law_last_position_prefix_and_suffix_give_back_the_coordinate(v: nat)
    ensures
        last_pos_value(last_pos_prefix_suffix(v).0, last_pos_prefix_suffix(v).1) == v,
        last_pos_prefix_suffix(v).0 > 3 ==> last_pos_prefix_suffix(v).1 < pow2(
            (last_pos_prefix_suffix(v).0 / 2 - 1) as nat,
        ),
        v <= 3 <==> last_pos_prefix_suffix(v).0 <= 3,
{
    if v > 3 {
        crate::bits::lemma_bit_length_bounds(v);
        let k = (bit_length(v) - 1) as nat;
        if k < 2 {
            vstd::arithmetic::power2::lemma2_to64();
            if k == 1 {
                assert(pow2(2) == 4);
            } else {
                assert(pow2(1) == 2);
            }
            assert(false);
        }
        let p = pow2((k - 1) as nat);
        vstd::arithmetic::power2::lemma_pow2_pos((k - 1) as nat);
        vstd::arithmetic::power2::lemma_pow2_adds((k - 1) as nat, 1);
        vstd::arithmetic::power2::lemma_pow2_adds((k - 1) as nat, 2);
        vstd::arithmetic::power2::lemma2_to64();
        assert(((k - 1) + 1) as nat == k && ((k - 1) + 2) as nat == k + 1);
        let top = v / p;
        vstd::arithmetic::div_mod::lemma_fundamental_div_mod(v as int, p as int);
        vstd::arithmetic::div_mod::lemma_mod_bound(v as int, p as int);
        assert(2 <= top < 4) by (nonlinear_arith)
            requires
                2 * p <= v < 4 * p,
                v == p * top + v % p,
                0 <= v % p < p,
                p > 0,
        ;
        assert(top * p <= v && v - top * p < p) by (nonlinear_arith)
            requires
                v == p * top + v % p,
                0 <= v % p < p,
        ;
        let prefix = (2 * k + top % 2) as nat;
        assert(prefix / 2 == k && prefix % 2 == top % 2);
        assert(2 + top % 2 == top);
    }
}

/// The prefix and suffix coding last significant coordinate `v`.
pub fn last_sig_coeff_prefix_suffix(v: usize) -> (r: (usize, usize))
    ensures
        r.0 == last_pos_prefix_suffix(v as nat).0,
        r.1 == last_pos_prefix_suffix(v as nat).1,
{
    if v <= 3 {
        return (v, 0);
    }
    let mut k: usize = 1;
    let mut pw: usize = 2;
    let mut top: usize = v / 2;
    proof {
        vstd::arithmetic::power2::lemma2_to64();
    }
    while top >= 4
        invariant
            1 <= k < 64,
            k < pw,
            pw == pow2(k as nat),
            top == v / pw,
            2 * pw <= v,
        decreases v - pw,
    {
        proof {
            vstd::arithmetic::div_mod::lemma_fundamental_div_mod(v as int, pw as int);
            vstd::arithmetic::div_mod::lemma_mod_bound(v as int, pw as int);
            assert(4 * pw <= v) by (nonlinear_arith)
                requires
                    top >= 4,
                    v == pw * top + v % pw,
                    v % pw >= 0,
                    pw > 0,
            ;
            vstd::arithmetic::power2::lemma_pow2_unfold((k + 1) as nat);
            if k + 1 >= 64 {
                vstd::arithmetic::power2::lemma2_to64();
                if k + 1 > 64 {
                    vstd::arithmetic::power2::lemma_pow2_strictly_increases(64, (k + 1) as nat);
                }
                assert(false);
            }
        }
        k = k + 1;
        pw = pw * 2;
        top = v / pw;
    }
    proof {
        vstd::arithmetic::div_mod::lemma_fundamental_div_mod(v as int, pw as int);
        vstd::arithmetic::div_mod::lemma_mod_bound(v as int, pw as int);
        assert(2 <= top < 4 && top * pw <= v && v < 4 * pw) by (nonlinear_arith)
            requires
                2 * pw <= v,
                top < 4,
                v == pw * top + v % pw,
                0 <= v % pw < pw,
                pw > 0,
        ;
        vstd::arithmetic::power2::lemma_pow2_unfold((k + 1) as nat);
        vstd::arithmetic::power2::lemma_pow2_unfold((k + 2) as nat);
        crate::bits::lemma_bit_length_unique(v as nat, (k + 2) as nat);
        assert(((k + 2 - 1) as nat - 1) as nat == k as nat);
    }
    let suffix = v - top * pw;
    (2 * (k + 1) + top % 2, suffix)
}

impl TransformUnit {
    /// The position (x, y) of the last nonzero coefficient of component `c_idx` in
    /// coding order, or (0, 0) where every coefficient of the block is zero.
    pub fn get_last_sig_coeff_pos(&self, c_idx: usize) -> (r: (usize, usize))
        requires
            scan_ok(*self, c_idx),
        ensures
            r == last_sig_pos(*self, c_idx),
            r.0 < pow2(self.spec_log2_tb_size(c_idx).0 as nat),
            r.1 < pow2(self.spec_log2_tb_size(c_idx).1 as nat),
    {
        let (lw, lh) = self.get_log2_tb_size(c_idx);
        let (lsw, lsh) = self.get_log2_sb_size(c_idx);
        let ghost q = self.quantized_transformed_coeffs@[c_idx as int];
        let ghost bw = pow2((lw - lsw) as nat) as int;
        let ghost bh = pow2((lh - lsh) as nat) as int;
        proof {
            lemma_pow2_scan_shape(lsw, lsh);
            lemma_pow2_scan_shape((lw - lsw) as usize, (lh - lsh) as usize);
            vstd::arithmetic::power2::lemma2_to64();
            vstd::arithmetic::power2::lemma_pow2_adds((lw - lsw) as nat, lsw as nat);
            vstd::arithmetic::power2::lemma_pow2_adds((lh - lsh) as nat, lsh as nat);
            crate::bits::lemma_usize_shl_one(lsw);
            crate::bits::lemma_usize_shl_one(lsh);
            crate::bits::lemma_pow2_le(lsw as nat, 4);
            crate::bits::lemma_pow2_le(lsh as nat, 4);
            crate::bits::lemma_pow2_le((lw - lsw) as nat, 4);
            crate::bits::lemma_pow2_le((lh - lsh) as nat, 4);
            vstd::arithmetic::power2::lemma_pow2_pos(lsw as nat);
            vstd::arithmetic::power2::lemma_pow2_pos(lsh as nat);
            vstd::arithmetic::power2::lemma_pow2_pos((lw - lsw) as nat);
            vstd::arithmetic::power2::lemma_pow2_pos((lh - lsh) as nat);
            assert(((lw - lsw) + lsw) as nat == lw as nat);
            assert(((lh - lsh) + lsh) as nat == lh as nat);
        }
        let coeff_order = diag_scan_order(lsw, lsh);
        let sb_order = diag_scan_order(lw - lsw, lh - lsh);
        let sw: usize = 1 << lsw;
        let sh: usize = 1 << lsh;
        let nsc: usize = coeff_order.len();
        let nsb: usize = sb_order.len();
        assert(1 <= nsc * nsb <= 961 * 961) by (nonlinear_arith)
            requires
                1 <= nsc <= 961,
                1 <= nsb <= 961,
        ;
        let total: usize = nsc * nsb;
        let ghost n = total as int;
        let mut i: usize = total;
        loop
            invariant
                1 <= i <= total,
                total == nsc * nsb,
                nsc == coeff_order@.len(),
                nsb == sb_order@.len(),
                1 <= nsc,
                coeff_order@ == pow2_scan(lsw, lsh),
                sb_order@ == pow2_scan((lw - lsw) as usize, (lh - lsh) as usize),
                sw == pow2(lsw as nat),
                sh == pow2(lsh as nat),
                bw == pow2((lw - lsw) as nat),
                bh == pow2((lh - lsh) as nat),
                1 <= sw <= 16,
                1 <= sh <= 16,
                1 <= bw <= 16,
                1 <= bh <= 16,
                pow2(lw as nat) == bw * sw,
                pow2(lh as nat) == bh * sh,
                forall|k: int| 0 <= k < nsc ==> (#[trigger] coeff_order@[k]).0 < sw && coeff_order@[k].1 < sh,
                forall|k: int| 0 <= k < nsb ==> (#[trigger] sb_order@[k]).0 < bw && sb_order@[k].1 < bh,
                q == self.quantized_transformed_coeffs@[c_idx as int],
                scan_ok(*self, c_idx),
                (lw, lh) == self.spec_log2_tb_size(c_idx),
                (lsw, lsh) == sb_size(lw, lh),
                last_sig_in(q, lw, lh, lsw, lsh, n) == last_sig_in(q, lw, lh, lsw, lsh, i as int),
                n == total,
                n == coeff_scan_len(lw, lh, lsw, lsh),
            decreases i,
        {
            i -= 1;
            assert(i / nsc < nsb && i % nsc < nsc) by (nonlinear_arith)
                requires
                    i < nsc * nsb,
                    nsc >= 1,
            ;
            let k = i / nsc;
            let p = i % nsc;
            let s = sb_order[k];
            let c = coeff_order[p];
            assert(s.0 * sw + c.0 < bw * sw && s.1 * sh + c.1 < bh * sh) by (nonlinear_arith)
                requires
                    s.0 < bw,
                    c.0 < sw,
                    s.1 < bh,
                    c.1 < sh,
            ;
            let x = s.0 * sw + c.0;
            let y = s.1 * sh + c.1;
            assert((x, y) == coeff_scan_pos(lw, lh, lsw, lsh, i as int));
            if i == 0 {
                return (x, y);
            }
            if self.quantized_transformed_coeffs[c_idx].get(y, x) != 0 {
                return (x, y);
            }
        }
    }
}

/// A coordinate below 256 has a prefix of at most 15, and above 3 a suffix of at
/// most 6 bits.
proof fn lemma_small_last_pos(v: nat)
    requires
        v < 256,
    ensures
        last_pos_prefix_suffix(v).0 <= 15,
        last_pos_prefix_suffix(v).0 > 3 ==> last_pos_prefix_suffix(v).0 / 2 - 1 <= 6 && last_pos_prefix_suffix(v).1 < pow2(
            (last_pos_prefix_suffix(v).0 / 2 - 1) as nat,
        ),
        last_pos_prefix_suffix(v).0 > 3 <==> v > 3,
{
    law_last_position_prefix_and_suffix_give_back_the_coordinate(v);
    if v > 3 {
        crate::bits::lemma_bit_length_bounds(v);
        let k = (bit_length(v) - 1) as nat;
        vstd::arithmetic::power2::lemma2_to64();
        if k >= 8 {
            if k > 8 {
                vstd::arithmetic::power2::lemma_pow2_strictly_increases(8, k);
            }
            assert(false);
        }
        let p = pow2((k - 1) as nat);
        vstd::arithmetic::power2::lemma_pow2_pos((k - 1) as nat);
        let top = v / p;
        assert(top % 2 <= 1);
    }
}

/// The bins of each part of the last position of component `c_idx` of `tu` can
/// take their contexts: the prefix bins of each axis the block has more than one
/// sample along, and the suffix bins.
pub open spec fn last_pos_codable(
    tu: TransformUnit,
    c_idx: usize,
    slice_type: SliceType,
    cabac_init_flag: bool,
    mts_enabled_flag: bool,
    sbt_flag: bool,
) -> bool {
    let (lw, lh) = tu.spec_log2_tb_size(c_idx);
    let (zw, zh) = zo_tb_size(tu, mts_enabled_flag, sbt_flag, c_idx);
    let (x, y) = last_sig_pos(tu, c_idx);
    let it = init_type_of(slice_type, cabac_init_flag);
    &&& scan_ok(tu, c_idx)
    &&& lw > 0 ==> last_prefix_ok(
        CabacContext::LastSigCoeffXPrefix,
        tr_bits(last_pos_prefix_suffix(x as nat).0, (2 * zw - 1) as nat, 0).len() as int,
        c_idx,
        lw,
        it,
    )
    &&& lh > 0 ==> last_prefix_ok(
        CabacContext::LastSigCoeffYPrefix,
        tr_bits(last_pos_prefix_suffix(y as nat).0, (2 * zh - 1) as nat, 0).len() as int,
        c_idx,
        lh,
        it,
    )
    &&& forall|i: int|
        0 <= i < 7 ==> #[trigger] bin_ctx_ok(CabacContext::LastSigCoeffXSuffix, i, it) && bin_ctx_ok(
            CabacContext::LastSigCoeffYSuffix,
            i,
            it,
        )
}

/// Coder `c1` with output `o1` follows `c0` with output `o0` through `ca`/`oa`,
/// `cb`/`ob` and `cc`/`oc` by coding the last position of component `c_idx` of `tu`:
/// the x prefix where the block is more than one sample wide, the y prefix where it
/// is more than one sample high, then the suffix of each coordinate above 3.
pub open spec fn last_pos_steps(
    c0: BoolCoder,
    o0: Bins,
    ca: BoolCoder,
    oa: Bins,
    cb: BoolCoder,
    ob: Bins,
    cc: BoolCoder,
    oc: Bins,
    c1: BoolCoder,
    o1: Bins,
    tu: TransformUnit,
    c_idx: usize,
    slice_type: SliceType,
    cabac_init_flag: bool,
    mts_enabled_flag: bool,
    sbt_flag: bool,
) -> bool {
    let (lw, lh) = tu.spec_log2_tb_size(c_idx);
    let (zw, zh) = zo_tb_size(tu, mts_enabled_flag, sbt_flag, c_idx);
    let (x, y) = last_sig_pos(tu, c_idx);
    let (px, sx) = last_pos_prefix_suffix(x as nat);
    let (py, sy) = last_pos_prefix_suffix(y as nat);
    let it = init_type_of(slice_type, cabac_init_flag);
    let bx = tr_bits(px, (2 * zw - 1) as nat, 0);
    let by = tr_bits(py, (2 * zh - 1) as nat, 0);
    &&& if lw > 0 {
        coded_in(
            c0,
            o0,
            ca,
            oa,
            bx,
            Seq::new(bx.len(), |k: int| last_prefix_sel(CabacContext::LastSigCoeffXPrefix, k, c_idx, lw, it)),
            CabacContext::LastSigCoeffXPrefix,
            it,
        )
    } else {
        ca == c0 && oa == o0
    }
    &&& if lh > 0 {
        coded_in(
            ca,
            oa,
            cb,
            ob,
            by,
            Seq::new(by.len(), |k: int| last_prefix_sel(CabacContext::LastSigCoeffYPrefix, k, c_idx, lh, it)),
            CabacContext::LastSigCoeffYPrefix,
            it,
        )
    } else {
        cb == ca && ob == oa
    }
    &&& if px > 3 {
        bins_coded(cb, ob, cc, oc, word_bits(sx as u64, (px / 2 - 1) as nat), CabacContext::LastSigCoeffXSuffix, it)
    } else {
        cc == cb && oc == ob
    }
    &&& if py > 3 {
        bins_coded(cc, oc, c1, o1, word_bits(sy as u64, (py / 2 - 1) as nat), CabacContext::LastSigCoeffYSuffix, it)
    } else {
        c1 == cc && o1 == oc
    }
}

/// Coder `c1` with output `o1` follows `c0` with output `o0` by coding the last
/// position of component `c_idx` of `tu`.
pub open spec fn last_pos_coded(
    c0: BoolCoder,
    o0: Bins,
    c1: BoolCoder,
    o1: Bins,
    tu: TransformUnit,
    c_idx: usize,
    slice_type: SliceType,
    cabac_init_flag: bool,
    mts_enabled_flag: bool,
    sbt_flag: bool,
) -> bool {
    exists|ca: BoolCoder, oa: Bins, cb: BoolCoder, ob: Bins, cc: BoolCoder, oc: Bins|
        #[trigger] last_pos_steps(
            c0,
            o0,
            ca,
            oa,
            cb,
            ob,
            cc,
            oc,
            c1,
            o1,
            tu,
            c_idx,
            slice_type,
            cabac_init_flag,
            mts_enabled_flag,
            sbt_flag,
        )
}

impl CtuEncoder {
    /// Codes the position of the last significant coefficient of component `c_idx` of
    /// `tu`, which opens its residual: the prefix of x where the block is more than
    /// one sample wide, of y where it is more than one sample high, then the suffix
    /// of each coordinate above 3. Returns the position.
    pub fn encode_last_sig_coeff_position(
        &mut self,
        bins: &mut Bins,
        tu: &TransformUnit,
        c_idx: usize,
        slice_type: SliceType,
        cabac_init_flag: bool,
        mts_enabled_flag: bool,
        sbt_flag: bool,
    ) -> (r: (usize, usize))
        requires
            last_pos_codable(*tu, c_idx, slice_type, cabac_init_flag, mts_enabled_flag, sbt_flag),
            old(self).coder.wf(),
            old(self).coder.engine_ok(),
            old(bins).num_bins + old(self).coder.cabac_bits_outstanding + 4 * 9 * 64 + 9 * 65 <= usize::MAX,
        ensures
            r == last_sig_pos(*tu, c_idx),
            last_pos_coded(
                old(self).coder,
                *old(bins),
                final(self).coder,
                *final(bins),
                *tu,
                c_idx,
                slice_type,
                cabac_init_flag,
                mts_enabled_flag,
                sbt_flag,
            ),
            final(self).encoder_context == old(self).encoder_context,
            final(self).coder.wf(),
            final(self).coder.engine_ok(),
    {
        let (x, y) = tu.get_last_sig_coeff_pos(c_idx);
        let (lw, lh) = tu.get_log2_tb_size(c_idx);
        proof {
            crate::bits::lemma_pow2_le(lw as nat, 8);
            crate::bits::lemma_pow2_le(lh as nat, 8);
            vstd::arithmetic::power2::lemma2_to64();
            lemma_small_last_pos(x as nat);
            lemma_small_last_pos(y as nat);
        }
        let (px, sx) = last_sig_coeff_prefix_suffix(x);
        let (py, sy) = last_sig_coeff_prefix_suffix(y);
        let ghost it = init_type_of(slice_type, cabac_init_flag);
        let ghost c0 = self.coder;
        let ghost o0 = *bins;
        if lw > 0 {
            self.coder.encode_cabac_last_sig_coeff_x_prefix(bins, px, tu, c_idx, slice_type, cabac_init_flag, mts_enabled_flag, sbt_flag);
        }
        let ghost ca = self.coder;
        let ghost oa = *bins;
        if lh > 0 {
            self.coder.encode_cabac_last_sig_coeff_y_prefix(bins, py, tu, c_idx, slice_type, cabac_init_flag, mts_enabled_flag, sbt_flag);
        }
        let ghost cb = self.coder;
        let ghost ob = *bins;
        if px > 3 {
            proof {
                crate::bits::lemma_shl_one((px / 2 - 1) as u64);
                assert forall|i: int| 0 <= i < px / 2 - 1 implies #[trigger] bin_ctx_ok(CabacContext::LastSigCoeffXSuffix, i, it) by {
                    assert(bin_ctx_ok(CabacContext::LastSigCoeffXSuffix, i, it) && bin_ctx_ok(CabacContext::LastSigCoeffYSuffix, i, it));
                }
            }
            self.coder.encode_cabac_for_last_sig_coeff_x_suffix(bins, sx, px, CabacContext::LastSigCoeffXSuffix, slice_type, cabac_init_flag);
        }
        let ghost cc = self.coder;
        let ghost oc = *bins;
        if py > 3 {
            proof {
                crate::bits::lemma_shl_one((py / 2 - 1) as u64);
                assert forall|i: int| 0 <= i < py / 2 - 1 implies #[trigger] bin_ctx_ok(CabacContext::LastSigCoeffYSuffix, i, it) by {
                    assert(bin_ctx_ok(CabacContext::LastSigCoeffXSuffix, i, it) && bin_ctx_ok(CabacContext::LastSigCoeffYSuffix, i, it));
                }
            }
            self.coder.encode_cabac_for_last_sig_coeff_y_suffix(bins, sy, py, CabacContext::LastSigCoeffYSuffix, slice_type, cabac_init_flag);
        }
        proof {
            assert(last_pos_steps(c0, o0, ca, oa, cb, ob, cc, oc, self.coder, *bins, *tu, c_idx, slice_type, cabac_init_flag, mts_enabled_flag, sbt_flag));
        }
        (x, y)
    }
}

} // verus!
