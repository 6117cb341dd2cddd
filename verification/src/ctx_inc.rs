//! Context index increments of the syntax elements whose contexts depend on
//! values already coded.
use crate::bits::{bit_length, ilog2};
use crate::bool_coder::BoolCoder;
use crate::cabac_contexts::{ctx_inc_row, spec_ctx_inc_row, CabacContext, CtxInc};
use crate::common::{IntraSubpartitionsSplitType, ModeType, TreeType, Vec2d};
use crate::ctu::TransformUnit;
use vstd::arithmetic::power2::pow2;
use vstd::prelude::*;

verus! {

/// The context offset of the last significant coefficient prefix of a luma block
/// with log2 size 1 to 6.
pub open spec fn last_sig_offset_y(log2_tb_size: usize) -> usize {
    if log2_tb_size <= 2 {
        0
    } else if log2_tb_size == 3 {
        3
    } else if log2_tb_size == 4 {
        6
    } else if log2_tb_size == 5 {
        10
    } else {
        15
    }
}

/// The context offset and shift of a last significant coefficient prefix bin of a
/// block with log2 size `log2_tb_size` in component `c_idx`.
pub open spec fn last_sig_offset_and_shift(c_idx: usize, log2_tb_size: usize) -> (usize, usize) {
    if c_idx == 0 {
        (last_sig_offset_y(log2_tb_size), ((log2_tb_size + 1) / 4) as usize)
    } else {
        (20, if pow2(log2_tb_size as nat) / 8 < 2 { (pow2(log2_tb_size as nat) / 8) as usize } else { 2 })
    }
}

/// The context increment of bin `bin_idx` of a last significant coefficient prefix.
pub open spec fn last_sig_ctx_inc(bin_idx: usize, c_idx: usize, log2_tb_size: usize) -> int {
    let (offset, shift) = last_sig_offset_and_shift(c_idx, log2_tb_size);
    bin_idx as int / pow2(shift as nat) as int + offset
}

/// A block size the last significant coefficient contexts cover: a luma side of 2
/// to 64 samples, a chroma side whose shift does not overflow, and a bin index whose
/// increment fits a `usize`.
pub open spec fn last_sig_ctx_ok(bin_idx: usize, c_idx: usize, log2_tb_size: usize) -> bool {
    &&& c_idx == 0 ==> 1 <= log2_tb_size <= 6
    &&& log2_tb_size < usize::BITS
    &&& last_sig_ctx_inc(bin_idx, c_idx, log2_tb_size) <= usize::MAX
}

fn last_sig_ctx(bin_idx: usize, c_idx: usize, log2_tb_size: usize) -> (r: CtxInc)
    requires
        last_sig_ctx_ok(bin_idx, c_idx, log2_tb_size),
    ensures
        r == CtxInc::Number(last_sig_ctx_inc(bin_idx, c_idx, log2_tb_size) as usize),
{
    let offset_y: [usize; 6] = [0, 0, 3, 6, 10, 15];
    let (ctx_offset, ctx_shift) = if c_idx == 0 {
        let lt = log2_tb_size + 1;
        proof {
            vstd::bits::lemma_usize_shr_is_div(lt, 2);
            vstd::arithmetic::power2::lemma2_to64();
        }
        (offset_y[log2_tb_size - 1], lt >> 2)
    } else {
        let s: usize = if log2_tb_size >= 4 {
            2
        } else if log2_tb_size == 3 {
            1
        } else {
            0
        };
        (20, s)
    };
    proof {
        assert(pow2(0) == 1 && pow2(1) == 2 && pow2(2) == 4 && pow2(3) == 8 && pow2(4) == 16) by {
            vstd::arithmetic::power2::lemma2_to64();
        }
        if log2_tb_size >= 4 {
            crate::bits::lemma_pow2_le(4, log2_tb_size as nat);
        }
        vstd::bits::lemma_usize_shr_is_div(bin_idx, ctx_shift);
    }
    CtxInc::Number((bin_idx >> ctx_shift) + ctx_offset)
}

/// The left and above sign levels of (x, y) exist, and the above one can be negated.
pub open spec fn sign_levels_ok(l: Seq<Vec<isize>>, x: usize, y: usize) -> bool {
    &&& x > 0 ==> x - 1 < l.len() && y < l[x - 1]@.len()
    &&& y > 0 ==> x < l.len() && y - 1 < l[x as int]@.len() && l[x as int]@[y - 1] != isize::MIN
}

/// The sign context of (x, y): 0 when the left and above levels (0 outside the
/// block) are both zero or opposite, 1 when neither is negative, else 2; plus 3
/// under block-based delta pulse code modulation.
pub open spec fn sign_ctx(l: Seq<Vec<isize>>, x: usize, y: usize, bdpcm: bool) -> usize {
    let left: int = if x == 0 { 0 } else { l[x - 1]@[y as int] as int };
    let above: int = if y == 0 { 0 } else { l[x as int]@[y - 1] as int };
    let base: usize = if (left == 0 && above == 0) || left == -above {
        0
    } else if left >= 0 && above >= 0 {
        1
    } else {
        2
    };
    if bdpcm { (base + 3) as usize } else { base }
}

impl BoolCoder {
    /// The context increment of bin `bin_idx` of `last_sig_coeff_x_prefix` in a block
    /// `2^log2_tb_width` samples wide.
    pub fn derive_ctx_inc_for_last_sig_coeff_x_prefix(&self, bin_idx: usize, c_idx: usize, log2_tb_width: usize) -> (r: CtxInc)
        requires
            last_sig_ctx_ok(bin_idx, c_idx, log2_tb_width),
        ensures
            r == CtxInc::Number(last_sig_ctx_inc(bin_idx, c_idx, log2_tb_width) as usize),
    {
        last_sig_ctx(bin_idx, c_idx, log2_tb_width)
    }

    /// The context increment of bin `bin_idx` of `last_sig_coeff_y_prefix` in a block
    /// `2^log2_tb_height` samples high.
    pub fn derive_ctx_inc_for_last_sig_coeff_y_prefix(&self, bin_idx: usize, c_idx: usize, log2_tb_height: usize) -> (r: CtxInc)
        requires
            last_sig_ctx_ok(bin_idx, c_idx, log2_tb_height),
        ensures
            r == CtxInc::Number(last_sig_ctx_inc(bin_idx, c_idx, log2_tb_height) as usize),
    {
        last_sig_ctx(bin_idx, c_idx, log2_tb_height)
    }

    /// The context increment of `tu_y_coded_flag`: 1 under block-based delta pulse
    /// code modulation, 0 without intra sub-partitions, else 2 plus the flag of the
    /// previous sub-partition (taken as 0 for the first one).
    pub fn derive_ctx_inc_for_tu_y_coded_flag(
        &self,
        first_in_cu: bool,
        prev_tu_cbf_y: usize,
        bdpcm_flag: bool,
        intra_subpartitions_split_type: IntraSubpartitionsSplitType,
    ) -> (r: CtxInc)
        requires
            !bdpcm_flag && intra_subpartitions_split_type != IntraSubpartitionsSplitType::ISP_NO_SPLIT
                && !first_in_cu ==> prev_tu_cbf_y + 2 <= usize::MAX,
        ensures
            r == CtxInc::Number(
                if bdpcm_flag {
                    1
                } else if intra_subpartitions_split_type == IntraSubpartitionsSplitType::ISP_NO_SPLIT {
                    0
                } else if first_in_cu {
                    2
                } else {
                    (prev_tu_cbf_y + 2) as usize
                },
            ),
    {
        if bdpcm_flag {
            CtxInc::Number(1)
        } else if intra_subpartitions_split_type == IntraSubpartitionsSplitType::ISP_NO_SPLIT {
            CtxInc::Number(0)
        } else {
            let prev_tu_cbf_y = if first_in_cu {
                0
            } else {
                prev_tu_cbf_y
            };
            CtxInc::Number(2 + prev_tu_cbf_y)
        }
    }

    /// The context increment of a palette `run_copy_flag`, by the previous run type
    /// and the distance from the previous run.
    pub fn _derive_ctx_inc_for_run_copy_flag(&self, previous_run_type: usize, previous_run_position: usize, cur_pos: usize) -> (r: CtxInc)
        requires
            previous_run_type < 2,
            cur_pos > previous_run_position,
        ensures
            ({
                let d = cur_pos - previous_run_position - 1;
                r == CtxInc::Number(
                    if previous_run_type == 0 {
                        if d < 4 { d as usize } else { 4 }
                    } else if d == 0 {
                        5
                    } else if d < 3 {
                        6
                    } else {
                        7
                    },
                )
            }),
    {
        let table: [[usize; 5]; 2] = [[0, 1, 2, 3, 4], [5, 6, 6, 7, 7]];
        let bin_dist = cur_pos - previous_run_position - 1;
        let d = if bin_dist < 4 {
            bin_dist
        } else {
            4
        };
        CtxInc::Number(table[previous_run_type][d])
    }

    /// The context increment of `alf_ctb_filter_alt_idx`: the reference index itself.
    pub fn _derive_ctx_inc_for_alf_ctb_filter_alt_idx(&self, ref_idx: usize) -> (r: CtxInc)
        ensures
            r == CtxInc::Number(ref_idx),
    {
        CtxInc::Number(ref_idx)
    }

    /// The context increment of `mtt_split_cu_binary_flag`: twice the vertical flag,
    /// plus one at a multi-type tree depth of at most 1.
    pub fn derive_ctx_inc_for_mtt_split_cu_binary_flag(&self, mtt_split_cu_vertical_flag: bool, mtt_depth: usize) -> (r: CtxInc)
        ensures
            r == CtxInc::Number(
                ((if mtt_split_cu_vertical_flag { 2int } else { 0 }) + (if mtt_depth <= 1 { 1int } else { 0 })) as usize,
            ),
    {
        let v: usize = if mtt_split_cu_vertical_flag {
            1
        } else {
            0
        };
        let d: usize = if mtt_depth <= 1 {
            1
        } else {
            0
        };
        CtxInc::Number(2 * v + d)
    }

    /// The context increment of `intra_luma_not_planar_flag`: 1 without intra
    /// sub-partitions.
    pub fn derive_ctx_inc_for_intra_luma_not_planar_flag(&self, intra_subpartitions_mode_flag: bool) -> (r: CtxInc)
        ensures
            r == CtxInc::Number(if intra_subpartitions_mode_flag { 0 } else { 1 }),
    {
        CtxInc::Number(
            if intra_subpartitions_mode_flag {
                0
            } else {
                1
            },
        )
    }

    /// The context increment of `regular_merge_flag`: 1 for a coding unit not skipped.
    pub fn derive_ctx_inc_for_regular_merge_flag(&self, cu_skip_flag: bool) -> (r: CtxInc)
        ensures
            r == CtxInc::Number(if cu_skip_flag { 0 } else { 1 }),
    {
        CtxInc::Number(
            if cu_skip_flag {
                0
            } else {
                1
            },
        )
    }

    /// The context increment of bin `bin_idx` of `cu_sbt_flag`: for the first bin, 1
    /// for a block of at most 256 samples.
    pub fn derive_ctx_inc_for_cu_sbt_flag(&self, bin_idx: usize, cb_width: usize, cb_height: usize) -> (r: CtxInc)
        requires
            bin_idx < 6,
            bin_idx == 0 ==> cb_width * cb_height <= usize::MAX,
        ensures
            r == if bin_idx == 0 {
                CtxInc::Number(if cb_width * cb_height <= 256 { 1 } else { 0 })
            } else {
                spec_ctx_inc_row(CabacContext::CuSbtFlag)[bin_idx as int]
            },
    {
        if bin_idx == 0 {
            CtxInc::Number(
                if cb_width * cb_height <= 256 {
                    1
                } else {
                    0
                },
            )
        } else {
            ctx_inc_row(CabacContext::CuSbtFlag)[bin_idx]
        }
    }

    /// The context increment of bin `bin_idx` of `cu_sbt_horizontal_flag`: for the
    /// first bin, 0 for a square block, 1 for a tall one, 2 for a wide one.
    pub fn derive_ctx_inc_for_cu_sbt_horizontal_flag(&self, bin_idx: usize, cb_width: usize, cb_height: usize) -> (r: CtxInc)
        requires
            bin_idx < 6,
        ensures
            r == if bin_idx == 0 {
                CtxInc::Number(
                    if cb_width == cb_height {
                        0
                    } else if cb_width < cb_height {
                        1
                    } else {
                        2
                    },
                )
            } else {
                spec_ctx_inc_row(CabacContext::CuSbtFlag)[bin_idx as int]
            },
    {
        if bin_idx == 0 {
            CtxInc::Number(
                if cb_width == cb_height {
                    0
                } else if cb_width < cb_height {
                    1
                } else {
                    2
                },
            )
        } else {
            ctx_inc_row(CabacContext::CuSbtFlag)[bin_idx]
        }
    }

    /// The context increment of bin `bin_idx` of `lfnst_idx`: for the first bin, 1
    /// under a dual tree.
    pub fn derive_ctx_inc_for_lfnst_idx(&self, bin_idx: usize, tree_type: TreeType) -> (r: CtxInc)
        requires
            bin_idx < 6,
        ensures
            r == if bin_idx == 0 {
                CtxInc::Number(if tree_type != TreeType::SINGLE_TREE { 1 } else { 0 })
            } else {
                spec_ctx_inc_row(CabacContext::LfnstIdx)[bin_idx as int]
            },
    {
        if bin_idx == 0 {
            CtxInc::Number(
                if tree_type != TreeType::SINGLE_TREE {
                    1
                } else {
                    0
                },
            )
        } else {
            ctx_inc_row(CabacContext::LfnstIdx)[bin_idx]
        }
    }

    /// The context increment of `tu_cb_coded_flag`, a one-bin flag: 1 under chroma
    /// block-based delta pulse code modulation.
    pub fn derive_ctx_inc_for_tu_cb_coded_flag(&self, bin_idx: usize, intra_bdpcm_chroma_flag: bool) -> (r: CtxInc)
        requires
            bin_idx == 0,
        ensures
            r == CtxInc::Number(if intra_bdpcm_chroma_flag { 1 } else { 0 }),
    {
        CtxInc::Number(
            if intra_bdpcm_chroma_flag {
                1
            } else {
                0
            },
        )
    }

    /// The context increment of `tu_cr_coded_flag`, a one-bin flag: 2 under chroma
    /// block-based delta pulse code modulation, else the Cb flag.
    pub fn derive_ctx_inc_for_tu_cr_coded_flag(&self, bin_idx: usize, tu_cb_coded_flag: bool, intra_bdpcm_chroma_flag: bool) -> (r: CtxInc)
        requires
            bin_idx == 0,
        ensures
            r == CtxInc::Number(
                if intra_bdpcm_chroma_flag {
                    2
                } else if tu_cb_coded_flag {
                    1
                } else {
                    0
                },
            ),
    {
        CtxInc::Number(
            if intra_bdpcm_chroma_flag {
                2
            } else if tu_cb_coded_flag {
                1
            } else {
                0
            },
        )
    }

    /// The context increment of bin `bin_idx` of `transform_skip_flag`: for the first
    /// bin, 1 for a chroma component.
    pub fn derive_ctx_inc_for_transform_skip_flag(&self, bin_idx: usize, c_idx: usize) -> (r: CtxInc)
        requires
            bin_idx < 6,
        ensures
            r == if bin_idx == 0 {
                CtxInc::Number(if c_idx != 0 { 1 } else { 0 })
            } else {
                spec_ctx_inc_row(CabacContext::TransformSkipFlag)[bin_idx as int]
            },
    {
        if bin_idx == 0 {
            CtxInc::Number(
                if c_idx != 0 {
                    1
                } else {
                    0
                },
            )
        } else {
            ctx_inc_row(CabacContext::TransformSkipFlag)[bin_idx]
        }
    }

    /// The context increment of bin `bin_idx` of `tu_joint_cbcr_residual_flag`: for the
    /// first bin, twice the Cb flag plus the Cr flag, less one; at least one is set.
    pub fn derive_ctx_inc_for_tu_joint_cbcr_residual_flag(&self, bin_idx: usize, tu_cb_coded_flag: bool, tu_cr_coded_flag: bool) -> (r: CtxInc)
        requires
            bin_idx < 6,
            bin_idx == 0 ==> tu_cb_coded_flag || tu_cr_coded_flag,
        ensures
            r == if bin_idx == 0 {
                CtxInc::Number(
                    ((if tu_cb_coded_flag { 2int } else { 0 }) + (if tu_cr_coded_flag { 1int } else { 0 }) - 1) as usize,
                )
            } else {
                spec_ctx_inc_row(CabacContext::TransformSkipFlag)[bin_idx as int]
            },
    {
        if bin_idx == 0 {
            let cb: usize = if tu_cb_coded_flag {
                1
            } else {
                0
            };
            let cr: usize = if tu_cr_coded_flag {
                1
            } else {
                0
            };
            CtxInc::Number(2 * cb + cr - 1)
        } else {
            ctx_inc_row(CabacContext::TransformSkipFlag)[bin_idx]
        }
    }

    /// The context increment of bin `bin_idx` of `bcw_idx`: the third and fourth bins
    /// are bypass coded when no picture is predicted backwards.
    pub fn derive_ctx_inc_for_bcw_idx(&self, bin_idx: usize, no_backward_pred_flag: bool) -> (r: CtxInc)
        requires
            bin_idx < 6,
        ensures
            r == if no_backward_pred_flag && (bin_idx == 2 || bin_idx == 3) {
                CtxInc::Bypass
            } else {
                spec_ctx_inc_row(CabacContext::BcwIdx)[bin_idx as int]
            },
    {
        if no_backward_pred_flag {
            if bin_idx == 2 || bin_idx == 3 {
                CtxInc::Bypass
            } else {
                ctx_inc_row(CabacContext::BcwIdx)[bin_idx]
            }
        } else {
            ctx_inc_row(CabacContext::BcwIdx)[bin_idx]
        }
    }

    /// The context increment of bin `bin_idx` of `amvr_precision_idx`: for the first
    /// bin, 1 for a block predicted by intra block copy (`pred_mode`), else 0 under
    /// affine motion and 2 otherwise.
    pub fn derive_ctx_inc_for_amvr_precision_idx(&self, bin_idx: usize, inter_affine_flag: bool, pred_mode: ModeType) -> (r: CtxInc)
        requires
            bin_idx < 6,
        ensures
            r == if bin_idx == 0 {
                CtxInc::Number(
                    if pred_mode == ModeType::MODE_IBC {
                        1
                    } else if inter_affine_flag {
                        0
                    } else {
                        2
                    },
                )
            } else {
                spec_ctx_inc_row(CabacContext::AmvrPrecisionIdx)[bin_idx as int]
            },
    {
        if bin_idx == 0 {
            CtxInc::Number(
                if pred_mode == ModeType::MODE_IBC {
                    1
                } else if inter_affine_flag {
                    0
                } else {
                    2
                },
            )
        } else {
            ctx_inc_row(CabacContext::AmvrPrecisionIdx)[bin_idx]
        }
    }

    /// The context increment of bin `bin_idx` of `inter_pred_idc`: for the first bin
    /// of a block with `cb_width + cb_height > 12`, 7 less half of one plus the bit
    /// lengths of `cb_width - 1` and `cb_height - 1`; else 5.
    pub fn derive_ctx_inc_for_inter_pred_idc(&self, bin_idx: usize, cb_width: usize, cb_height: usize) -> (r: CtxInc)
        requires
            bin_idx < 6,
            bin_idx == 0 && cb_width + cb_height > 12 ==> cb_width >= 2 && cb_height >= 2 && (1
                + bit_length((cb_width - 1) as nat) + bit_length((cb_height - 1) as nat)) / 2 <= 7,
        ensures
            r == if bin_idx == 0 {
                CtxInc::Number(
                    if cb_width + cb_height > 12 {
                        (7 - (1 + bit_length((cb_width - 1) as nat) + bit_length((cb_height - 1) as nat)) / 2) as usize
                    } else {
                        5
                    },
                )
            } else {
                spec_ctx_inc_row(CabacContext::InterPredIdc)[bin_idx as int]
            },
    {
        if bin_idx == 0 {
            if cb_width > 12 || cb_height > 12 - cb_width {
                let a = ilog2(cb_width - 1) as usize + 1;
                let b = ilog2(cb_height - 1) as usize + 1;
                let s = 1 + a + b;
                proof {
                    vstd::bits::lemma_usize_shr_is_div(s, 1);
                    vstd::arithmetic::power2::lemma2_to64();
                }
                CtxInc::Number(7 - (s >> 1))
            } else {
                CtxInc::Number(5)
            }
        } else {
            ctx_inc_row(CabacContext::InterPredIdc)[bin_idx]
        }
    }

    /// The context increment of `coeff_sign_flag` under transform skip residual
    /// coding, from the signs of the left and above levels in `coeff_sign_level`
    /// (indexed by column, then row): 0 when they are both zero or opposite, 1 when
    /// neither is negative, 2 otherwise; 3 more under block-based delta pulse code
    /// modulation of component `c_idx`.
    pub fn derive_ctx_inc_for_coeff_sign_flag_for_transform_skip_mode(
        &self,
        x_c: usize,
        y_c: usize,
        c_idx: usize,
        tu: &TransformUnit,
        coeff_sign_level: &Vec<Vec<isize>>,
    ) -> (r: CtxInc)
        requires
            c_idx < 3,
            sign_levels_ok(coeff_sign_level@, x_c, y_c),
        ensures
            r == CtxInc::Number(sign_ctx(coeff_sign_level@, x_c, y_c, tu.cu_bdpcm_flag[c_idx as int])),
    {
        let left_sign: isize = if x_c == 0 {
            0
        } else {
            coeff_sign_level[x_c - 1][y_c]
        };
        let above_sign: isize = if y_c == 0 {
            0
        } else {
            coeff_sign_level[x_c][y_c - 1]
        };
        let bdpcm_flag = tu.cu_bdpcm_flag[c_idx];
        if (left_sign == 0 && above_sign == 0) || left_sign == -above_sign {
            CtxInc::Number(
                if !bdpcm_flag {
                    0
                } else {
                    3
                },
            )
        } else if left_sign >= 0 && above_sign >= 0 {
            CtxInc::Number(
                if !bdpcm_flag {
                    1
                } else {
                    4
                },
            )
        } else {
            CtxInc::Number(
                if !bdpcm_flag {
                    2
                } else {
                    5
                },
            )
        }
    }

    /// The context increment of `coeff_sign_flag`: bypass coded unless transform skip
    /// residual coding is on and scan position `n` is not past `last_scan_pos_pass1`,
    /// where it follows the neighbouring signs.
    pub fn derive_ctx_inc_for_coeff_sign_flag(
        &self,
        x_c: usize,
        y_c: usize,
        c_idx: usize,
        transform_skip_flag: bool,
        n: usize,
        last_scan_pos_pass1: isize,
        tu: &TransformUnit,
        ts_residual_coding_disabled_flag: bool,
        coeff_sign_level: &Vec<Vec<isize>>,
    ) -> (r: CtxInc)
        requires
            n <= isize::MAX,
            transform_skip_flag && n <= last_scan_pos_pass1 && !ts_residual_coding_disabled_flag ==> c_idx < 3
                && sign_levels_ok(coeff_sign_level@, x_c, y_c),
        ensures
            r == if !transform_skip_flag || n > last_scan_pos_pass1 || ts_residual_coding_disabled_flag {
                CtxInc::Bypass
            } else {
                CtxInc::Number(sign_ctx(coeff_sign_level@, x_c, y_c, tu.cu_bdpcm_flag[c_idx as int]))
            },
    {
        if !transform_skip_flag || n as isize > last_scan_pos_pass1 || ts_residual_coding_disabled_flag {
            CtxInc::Bypass
        } else {
            self.derive_ctx_inc_for_coeff_sign_flag_for_transform_skip_mode(x_c, y_c, c_idx, tu, coeff_sign_level)
        }
    }
}

/// 1 for a nonzero coefficient at row `y`, column `x` of `p`, else 0.
pub open spec fn sig_at(p: Vec2d<i16>, y: int, x: int) -> int {
    if p.at(y, x) != 0 {
        1
    } else {
        0
    }
}

/// The smaller of two integers.
pub open spec fn min_int(a: int, b: int) -> int {
    if a < b {
        a
    } else {
        b
    }
}

/// What one neighbour at (y, x) adds to the number of significant coefficients:
/// its significance, or its first-pass level when that is smaller.
pub open spec fn nb_sig(p: Vec2d<i16>, a: Vec2d<usize>, y: int, x: int) -> int {
    min_int(sig_at(p, y, x), a.at(y, x) as int)
}

/// The number of significant left and above neighbours of (x, y) and the sum of
/// their first-pass levels.
pub open spec fn loc_ts(p: Vec2d<i16>, a: Vec2d<usize>, x: int, y: int) -> (int, int) {
    (
        (if x > 0 { nb_sig(p, a, y, x - 1) } else { 0 }) + (if y > 0 { nb_sig(p, a, y - 1, x) } else { 0 }),
        (if x > 0 { a.at(y, x - 1) as int } else { 0 }) + (if y > 0 { a.at(y - 1, x) as int } else { 0 }),
    )
}

/// The number of significant neighbours (x+1, y), (x+2, y), (x+1, y+1), (x, y+1),
/// (x, y+2) of (x, y) inside a `w` by `h` block, and the sum of their first-pass
/// levels.
pub open spec fn loc_template(p: Vec2d<i16>, a: Vec2d<usize>, x: int, y: int, w: int, h: int) -> (int, int) {
    let r1 = x < w - 1;
    let r2 = x < w - 2;
    let d1 = y < h - 1;
    let d2 = y < h - 2;
    (
        (if r1 { nb_sig(p, a, y, x + 1) } else { 0 }) + (if r1 && r2 { nb_sig(p, a, y, x + 2) } else { 0 }) + (if r1
            && d1 { nb_sig(p, a, y + 1, x + 1) } else { 0 }) + (if d1 { nb_sig(p, a, y + 1, x) } else { 0 }) + (if d1
            && d2 { nb_sig(p, a, y + 2, x) } else { 0 }),
        (if r1 { a.at(y, x + 1) as int } else { 0 }) + (if r1 && r2 { a.at(y, x + 2) as int } else { 0 }) + (if r1
            && d1 { a.at(y + 1, x + 1) as int } else { 0 }) + (if d1 { a.at(y + 1, x) as int } else { 0 }) + (if d1
            && d2 { a.at(y + 2, x) as int } else { 0 }),
    )
}

/// The number of significant neighbours of (x, y) in a `w` by `h` block and the sum
/// of their first-pass levels: the left and above neighbours under transform skip
/// residual coding, else the five to the right and below.
pub open spec fn loc_sig_and_sum(p: Vec2d<i16>, a: Vec2d<usize>, x: int, y: int, w: int, h: int, ts: bool) -> (int, int) {
    if ts {
        loc_ts(p, a, x, y)
    } else {
        loc_template(p, a, x, y, w, h)
    }
}

/// Adds the neighbour at (y, x) to the count and sum `acc`.
fn add_neighbour(q: &Vec2d<i16>, a: &Vec2d<usize>, y: usize, x: usize, acc: (usize, usize)) -> (r: (usize, usize))
    requires
        q.wf() && a.wf(),
        y < q.height && x < q.width,
        y < a.height && x < a.width,
        acc.0 <= acc.1,
        acc.1 + a.at(y as int, x as int) <= usize::MAX,
    ensures
        r.0 == acc.0 + nb_sig(*q, *a, y as int, x as int),
        r.1 == acc.1 + a.at(y as int, x as int),
        r.0 <= r.1,
{
    let l = a.get(y, x);
    let s: usize = if q.get(y, x) != 0 {
        1
    } else {
        0
    };
    (acc.0 + if s < l {
        s
    } else {
        l
    }, acc.1 + l)
}

/// The coefficients and first-pass levels around (x, y) of a `2^log2_w` by
/// `2^log2_h` block of component `c_idx` of `tu` can be read and summed.
pub open spec fn loc_ok(tu: TransformUnit, c_idx: usize, a: Vec2d<usize>, x: usize, y: usize, log2_w: usize, log2_h: usize) -> bool {
    &&& c_idx < 3
    &&& c_idx < tu.quantized_transformed_coeffs@.len()
    &&& tu.quantized_transformed_coeffs@[c_idx as int].wf()
    &&& a.wf()
    &&& log2_w < usize::BITS && log2_h < usize::BITS
    &&& x < pow2(log2_w as nat) <= a.width && pow2(log2_w as nat) <= tu.quantized_transformed_coeffs@[c_idx as int].width
    &&& y < pow2(log2_h as nat) <= a.height && pow2(log2_h as nat) <= tu.quantized_transformed_coeffs@[c_idx as int].height
}

impl BoolCoder {
    /// The number of significant neighbours of (x_c, y_c) in component `c_idx` of
    /// `tu` and the sum of their first-pass levels `abs_level_pass1`.
    pub fn derive_loc_num_sig_and_loc_sum_abs_pass1(
        &self,
        tu: &TransformUnit,
        c_idx: usize,
        x_c: usize,
        y_c: usize,
        log2_tb_width: usize,
        log2_tb_height: usize,
        ts_residual_coding_disabled_flag: bool,
        abs_level_pass1: &Vec2d<usize>,
    ) -> (r: (usize, usize))
        requires
            loc_ok(*tu, c_idx, *abs_level_pass1, x_c, y_c, log2_tb_width, log2_tb_height),
            loc_sig_and_sum(
                tu.quantized_transformed_coeffs@[c_idx as int],
                *abs_level_pass1,
                x_c as int,
                y_c as int,
                pow2(log2_tb_width as nat) as int,
                pow2(log2_tb_height as nat) as int,
                tu.transform_skip_flag[c_idx as int] && !ts_residual_coding_disabled_flag,
            ).1 <= usize::MAX,
        ensures
            (r.0 as int, r.1 as int) == loc_sig_and_sum(
                tu.quantized_transformed_coeffs@[c_idx as int],
                *abs_level_pass1,
                x_c as int,
                y_c as int,
                pow2(log2_tb_width as nat) as int,
                pow2(log2_tb_height as nat) as int,
                tu.transform_skip_flag[c_idx as int] && !ts_residual_coding_disabled_flag,
            ),
    {
        let ghost p = tu.quantized_transformed_coeffs@[c_idx as int];
        let ghost a = *abs_level_pass1;
        let q = &tu.quantized_transformed_coeffs[c_idx];
        proof {
            crate::bits::lemma_usize_shl_one(log2_tb_width);
            crate::bits::lemma_usize_shl_one(log2_tb_height);
        }
        let w: usize = 1 << log2_tb_width;
        let h: usize = 1 << log2_tb_height;
        let mut acc: (usize, usize) = (0, 0);
        if tu.transform_skip_flag[c_idx] && !ts_residual_coding_disabled_flag {
            if x_c > 0 {
                acc = add_neighbour(q, abs_level_pass1, y_c, x_c - 1, acc);
            }
            if y_c > 0 {
                acc = add_neighbour(q, abs_level_pass1, y_c - 1, x_c, acc);
            }
        } else {
            let r1 = x_c < w - 1;
            let d1 = y_c < h - 1;
            if r1 {
                acc = add_neighbour(q, abs_level_pass1, y_c, x_c + 1, acc);
                if x_c < w - 2 {
                    acc = add_neighbour(q, abs_level_pass1, y_c, x_c + 2, acc);
                }
                if d1 {
                    acc = add_neighbour(q, abs_level_pass1, y_c + 1, x_c + 1, acc);
                }
            }
            if d1 {
                acc = add_neighbour(q, abs_level_pass1, y_c + 1, x_c, acc);
                if y_c < h - 2 {
                    acc = add_neighbour(q, abs_level_pass1, y_c + 2, x_c, acc);
                }
            }
        }
        acc
    }
}

/// `max(q_state - 1, 0)`: the quantizer state group of dependent quantization.
pub open spec fn q_group(q_state: usize) -> int {
    if q_state >= 1 {
        q_state - 1
    } else {
        0
    }
}

/// The context increment of `sig_coeff_flag`: 60 plus the significant neighbours
/// under transform skip residual coding; else, from the quantizer state, half the
/// neighbouring first-pass sum (at most 3) and the diagonal position `x + y`.
pub open spec fn sig_ctx(ns: int, sa: int, x: int, y: int, c_idx: usize, q_state: usize, ts: bool) -> int {
    let d = x + y;
    let s = min_int((sa + 1) / 2, 3);
    if ts {
        60 + ns
    } else if c_idx == 0 {
        12 * q_group(q_state) + s + (if d < 2 { 8int } else if d < 5 { 4 } else { 0 })
    } else {
        36 + 8 * q_group(q_state) + s + (if d < 2 { 4int } else { 0 })
    }
}

/// The context increment of `par_level_flag` (`ctx`) or of the `j`-th
/// `abs_level_gtx_flag` without transform skip residual coding: from the excess of
/// the neighbouring sum over the significant count (at most 4) and the diagonal
/// position, with its own contexts for the last significant coefficient, and 32
/// more for the second greater-than flag.
pub open spec fn level_flag_ctx(ns: int, sa: int, x: usize, y: usize, c_idx: usize, last: (usize, usize), ctx: CabacContext, j: usize) -> int {
    let off = min_int(sa - ns, 4);
    let d = x + y;
    let base: int = if x == last.0 && y == last.1 {
        if c_idx == 0 { 0 } else { 21 }
    } else if c_idx == 0 {
        1 + off + (if d == 0 { 15int } else if d < 3 { 10 } else if d < 10 { 5 } else { 0 })
    } else {
        22 + off + (if d == 0 { 5int } else { 0 })
    };
    if ctx == CabacContext::AbsLevelGtxFlag && j == 1 {
        base + 32
    } else {
        base
    }
}

/// What the neighbour `(dx, dy)` away from (x, y) adds inside a `w` by `h` block:
/// its significance, or its first-pass level when smaller, and its first-pass level;
/// nothing outside the block.
pub open spec fn neighbour_if_inside(p: Vec2d<i16>, a: Vec2d<usize>, x: int, y: int, dx: int, dy: int, w: int, h: int) -> (int, int) {
    if 0 <= x + dx < w && 0 <= y + dy < h {
        let level = a.at(y + dy, x + dx) as int;
        let sig: int = if p.at(y + dy, x + dx) != 0 { 1 } else { 0 };
        (if sig < level { sig } else { level }, level)
    } else {
        (0, 0)
    }
}

/// Outside transform skip residual coding the neighbourhood of a coefficient is its
/// five neighbours one and two to the right, one and two below and one diagonally
/// below right, those inside the block counted; under it, the left and above
/// neighbours that exist.
pub proof fn law_significance_neighbourhood(p: Vec2d<i16>, a: Vec2d<usize>, x: int, y: int, w: int, h: int)
    requires
        0 <= x < w,
        0 <= y < h,
    ensures
        ({
            let t = loc_sig_and_sum(p, a, x, y, w, h, false);
            let n10 = neighbour_if_inside(p, a, x, y, 1, 0, w, h);
            let n20 = neighbour_if_inside(p, a, x, y, 2, 0, w, h);
            let n11 = neighbour_if_inside(p, a, x, y, 1, 1, w, h);
            let n01 = neighbour_if_inside(p, a, x, y, 0, 1, w, h);
            let n02 = neighbour_if_inside(p, a, x, y, 0, 2, w, h);
            &&& t.0 == n10.0 + n20.0 + n11.0 + n01.0 + n02.0
            &&& t.1 == n10.1 + n20.1 + n11.1 + n01.1 + n02.1
        }),
        ({
            let t = loc_sig_and_sum(p, a, x, y, w, h, true);
            let nl = neighbour_if_inside(p, a, x, y, -1, 0, w, h);
            let na = neighbour_if_inside(p, a, x, y, 0, -1, w, h);
            &&& t.0 == nl.0 + na.0
            &&& t.1 == nl.1 + na.1
        }),
{
}

/// Outside transform skip residual coding, `par_level_flag` and the first
/// `abs_level_gtx_flag` share their context increment and the second greater-than
/// flag takes the same one 32 higher. At the last significant position it is 0 for
/// luma and 21 for chroma; elsewhere it is, with `e` the excess of the neighbour
/// first-pass sum over the significant count (at most 4) and `d = x + y`, `1 + e`
/// plus 15 at the corner, 10 below 3, 5 below 10 for luma, and `22 + e` plus 5 at
/// the corner for chroma.
pub proof fn law_level_flag_contexts(
    tu: TransformUnit,
    c_idx: usize,
    a: Vec2d<usize>,
    x: usize,
    y: usize,
    lw: usize,
    lh: usize,
    f: bool,
    last: (usize, usize),
)
    requires
        !(tu.transform_skip_flag[c_idx as int] && !f),
    ensures
        ({
            let t = loc_sig_and_sum(
                tu.quantized_transformed_coeffs@[c_idx as int],
                a,
                x as int,
                y as int,
                pow2(lw as nat) as int,
                pow2(lh as nat) as int,
                false,
            );
            let e = if t.1 - t.0 < 4 { t.1 - t.0 } else { 4 };
            let d = x + y;
            let par = level_flag_inc(tu, c_idx, a, x, y, lw, lh, f, CabacContext::ParLevelFlag, 0, last);
            &&& level_flag_inc(tu, c_idx, a, x, y, lw, lh, f, CabacContext::AbsLevelGtxFlag, 0, last) == par
            &&& level_flag_inc(tu, c_idx, a, x, y, lw, lh, f, CabacContext::AbsLevelGtxFlag, 1, last) == par + 32
            &&& (x, y) == last ==> par == if c_idx == 0 { 0int } else { 21 }
            &&& (x, y) != last && c_idx == 0 ==> par == 1 + e + (if d == 0 { 15int } else if d < 3 { 10 } else if d < 10 { 5 } else { 0 })
            &&& (x, y) != last && c_idx != 0 ==> par == 22 + e + (if d == 0 { 5int } else { 0 })
        }),
{
}

/// Under transform skip residual coding the context increment of `sig_coeff_flag`
/// is 60 plus the number of significant neighbours, in every quantizer state.
/// Outside it, the context increment of
/// `sig_coeff_flag` in quantizer states 0 and 1 is half the first-pass neighbour sum
/// (at most 3) plus 8 near the top-left corner (`x + y` below 2), 4 a little further
/// (below 5) and 0 beyond for luma, and 36 plus that half sum plus 4 near the corner
/// for chroma; state 2 adds one context group (12 for luma, 8 for chroma) and state
/// 3 two.
pub proof fn law_significance_contexts_step_by_quantizer_state(
    tu: TransformUnit,
    c_idx: usize,
    a: Vec2d<usize>,
    x: usize,
    y: usize,
    lw: usize,
    lh: usize,
    f: bool,
)
    ensures
        ({
            let ts = tu.transform_skip_flag[c_idx as int] && !f;
            let ns = loc_sig_and_sum(
                tu.quantized_transformed_coeffs@[c_idx as int],
                a,
                x as int,
                y as int,
                pow2(lw as nat) as int,
                pow2(lh as nat) as int,
                true,
            ).0;
            let sa = loc_sig_and_sum(
                tu.quantized_transformed_coeffs@[c_idx as int],
                a,
                x as int,
                y as int,
                pow2(lw as nat) as int,
                pow2(lh as nat) as int,
                false,
            ).1;
            let half = if (sa + 1) / 2 < 3 { (sa + 1) / 2 } else { 3 };
            let d = x + y;
            let i0 = sig_coeff_inc(tu, c_idx, a, x, y, lw, lh, f, 0);
            &&& ts ==> forall|q: usize| #[trigger] sig_coeff_inc(tu, c_idx, a, x, y, lw, lh, f, q) == 60 + ns
            &&& !ts ==> {
            &&& sig_coeff_inc(tu, c_idx, a, x, y, lw, lh, f, 1) == i0
            &&& c_idx == 0 ==> i0 == half + (if d < 2 { 8int } else if d < 5 { 4 } else { 0 })
            &&& c_idx == 0 ==> sig_coeff_inc(tu, c_idx, a, x, y, lw, lh, f, 2) == i0 + 12
            &&& c_idx == 0 ==> sig_coeff_inc(tu, c_idx, a, x, y, lw, lh, f, 3) == i0 + 24
            &&& c_idx != 0 ==> i0 == 36 + half + (if d < 2 { 4int } else { 0 })
            &&& c_idx != 0 ==> sig_coeff_inc(tu, c_idx, a, x, y, lw, lh, f, 2) == i0 + 8
            &&& c_idx != 0 ==> sig_coeff_inc(tu, c_idx, a, x, y, lw, lh, f, 3) == i0 + 16
            }
        }),
{
}

/// The context increment of `par_level_flag` or the `j`-th `abs_level_gtx_flag`
/// under transform skip residual coding: 32 for the parity flag; for the first
/// greater-than flag 67 under block-based delta pulse code modulation, else 64 plus
/// the significant left and above neighbours; 67 + `j` for the others.
pub open spec fn ts_level_flag_ctx(p: Vec2d<i16>, x: int, y: int, ctx: CabacContext, j: usize, bdpcm: bool) -> int {
    if ctx == CabacContext::ParLevelFlag {
        32
    } else if j == 0 {
        if bdpcm {
            67
        } else {
            64 + (if x > 0 { sig_at(p, y, x - 1) } else { 0 }) + (if y > 0 { sig_at(p, y - 1, x) } else { 0 })
        }
    } else {
        67 + j
    }
}

/// The context increment of `sig_coeff_flag` at (x, y) of component `c_idx` of
/// `tu`, a `2^lw` by `2^lh` block with first-pass levels `a`, in quantizer state
/// `q_state`.
pub open spec fn sig_coeff_inc(
    tu: TransformUnit,
    c_idx: usize,
    a: Vec2d<usize>,
    x: usize,
    y: usize,
    lw: usize,
    lh: usize,
    ts_residual_coding_disabled_flag: bool,
    q_state: usize,
) -> int {
    let ts = tu.transform_skip_flag[c_idx as int] && !ts_residual_coding_disabled_flag;
    let (ns, sa) = loc_sig_and_sum(
        tu.quantized_transformed_coeffs@[c_idx as int],
        a,
        x as int,
        y as int,
        pow2(lw as nat) as int,
        pow2(lh as nat) as int,
        ts,
    );
    sig_ctx(ns, sa, x as int, y as int, c_idx, q_state, ts)
}

/// The context increment of `par_level_flag` or the `j`-th `abs_level_gtx_flag`
/// (`ctx`) at (x, y) of component `c_idx` of `tu`, a `2^lw` by `2^lh` block with
/// first-pass levels `a` whose last significant coefficient is at `last`.
pub open spec fn level_flag_inc(
    tu: TransformUnit,
    c_idx: usize,
    a: Vec2d<usize>,
    x: usize,
    y: usize,
    lw: usize,
    lh: usize,
    ts_residual_coding_disabled_flag: bool,
    ctx: CabacContext,
    j: usize,
    last: (usize, usize),
) -> int {
    if tu.transform_skip_flag[c_idx as int] && !ts_residual_coding_disabled_flag {
        ts_level_flag_ctx(tu.quantized_transformed_coeffs@[c_idx as int], x as int, y as int, ctx, j, tu.cu_bdpcm_flag[c_idx as int])
    } else {
        let (ns, sa) = loc_template(
            tu.quantized_transformed_coeffs@[c_idx as int],
            a,
            x as int,
            y as int,
            pow2(lw as nat) as int,
            pow2(lh as nat) as int,
        );
        level_flag_ctx(ns, sa, x, y, c_idx, last, ctx, j)
    }
}

impl BoolCoder {
    /// The context increment of `sig_coeff_flag` at (x_c, y_c) of component `c_idx`
    /// of `tu` in quantizer state `q_state`, with first-pass levels `abs_level_pass1`.
    pub fn derive_ctx_inc_for_sig_coeff_flag(
        &self,
        x_c: usize,
        y_c: usize,
        log2_tb_width: usize,
        log2_tb_height: usize,
        tu: &TransformUnit,
        c_idx: usize,
        ts_residual_coding_disabled_flag: bool,
        abs_level_pass1: &Vec2d<usize>,
        q_state: usize,
    ) -> (r: CtxInc)
        requires
            loc_ok(*tu, c_idx, *abs_level_pass1, x_c, y_c, log2_tb_width, log2_tb_height),
            loc_sig_and_sum(
                tu.quantized_transformed_coeffs@[c_idx as int],
                *abs_level_pass1,
                x_c as int,
                y_c as int,
                pow2(log2_tb_width as nat) as int,
                pow2(log2_tb_height as nat) as int,
                tu.transform_skip_flag[c_idx as int] && !ts_residual_coding_disabled_flag,
            ).1 + 100 <= usize::MAX,
            x_c + y_c <= usize::MAX,
            12 * q_state + 100 <= usize::MAX,
        ensures
            r == CtxInc::Number(
                sig_coeff_inc(*tu, c_idx, *abs_level_pass1, x_c, y_c, log2_tb_width, log2_tb_height, ts_residual_coding_disabled_flag, q_state) as usize,
            ),
    {
        let (loc_num_sig, loc_sum_abs_pass1) = self.derive_loc_num_sig_and_loc_sum_abs_pass1(
            tu,
            c_idx,
            x_c,
            y_c,
            log2_tb_width,
            log2_tb_height,
            ts_residual_coding_disabled_flag,
            abs_level_pass1,
        );
        let d = x_c + y_c;
        let qg: usize = if q_state >= 1 {
            q_state - 1
        } else {
            0
        };
        let half = (loc_sum_abs_pass1 + 1) / 2;
        let s: usize = if half < 3 {
            half
        } else {
            3
        };
        if tu.transform_skip_flag[c_idx] && !ts_residual_coding_disabled_flag {
            CtxInc::Number(60 + loc_num_sig)
        } else if c_idx == 0 {
            CtxInc::Number(
                12 * qg + s + if d < 2 {
                    8
                } else if d < 5 {
                    4
                } else {
                    0
                },
            )
        } else {
            CtxInc::Number(36 + 8 * qg + s + if d < 2 {
                4
            } else {
                0
            })
        }
    }

    /// The context increment of `par_level_flag` or of the `j`-th
    /// `abs_level_gtx_flag` (`ctx`) at (x_c, y_c) of component `c_idx` of `tu`, whose
    /// last significant coefficient is at `last_sig_coeff_pos`.
    pub fn derive_ctx_inc_for_par_level_flag_and_abs_level_gtx_flag(
        &self,
        ctx: CabacContext,
        x_c: usize,
        y_c: usize,
        log2_tb_width: usize,
        log2_tb_height: usize,
        tu: &TransformUnit,
        c_idx: usize,
        j: usize,
        last_sig_coeff_pos: (usize, usize),
        ts_residual_coding_disabled_flag: bool,
        abs_level_pass1: &Vec2d<usize>,
    ) -> (r: CtxInc)
        requires
            loc_ok(*tu, c_idx, *abs_level_pass1, x_c, y_c, log2_tb_width, log2_tb_height),
            loc_sig_and_sum(
                tu.quantized_transformed_coeffs@[c_idx as int],
                *abs_level_pass1,
                x_c as int,
                y_c as int,
                pow2(log2_tb_width as nat) as int,
                pow2(log2_tb_height as nat) as int,
                false,
            ).1 <= usize::MAX,
            x_c + y_c <= usize::MAX,
            j + 67 <= usize::MAX,
        ensures
            r == CtxInc::Number(
                level_flag_inc(*tu, c_idx, *abs_level_pass1, x_c, y_c, log2_tb_width, log2_tb_height, ts_residual_coding_disabled_flag, ctx, j, last_sig_coeff_pos) as usize,
            ),
    {
        if tu.transform_skip_flag[c_idx] && !ts_residual_coding_disabled_flag {
            if ctx == CabacContext::ParLevelFlag {
                CtxInc::Number(32)
            } else if j == 0 {
                if tu.cu_bdpcm_flag[c_idx] {
                    CtxInc::Number(67)
                } else {
                    let q = &tu.quantized_transformed_coeffs[c_idx];
                    let l: usize = if x_c > 0 && q.get(y_c, x_c - 1) != 0 {
                        1
                    } else {
                        0
                    };
                    let a: usize = if y_c > 0 && q.get(y_c - 1, x_c) != 0 {
                        1
                    } else {
                        0
                    };
                    CtxInc::Number(64 + l + a)
                }
            } else {
                CtxInc::Number(67 + j)
            }
        } else {
            let (loc_num_sig, loc_sum_abs_pass1) = self.derive_loc_num_sig_and_loc_sum_abs_pass1(
                tu,
                c_idx,
                x_c,
                y_c,
                log2_tb_width,
                log2_tb_height,
                true,
                abs_level_pass1,
            );
            let excess = loc_sum_abs_pass1 - loc_num_sig;
            let ctx_offset: usize = if excess < 4 {
                excess
            } else {
                4
            };
            let d = x_c + y_c;
            let (last_x, last_y) = last_sig_coeff_pos;
            let base: usize = if x_c == last_x && y_c == last_y {
                if c_idx == 0 {
                    0
                } else {
                    21
                }
            } else if c_idx == 0 {
                1 + ctx_offset + if d == 0 {
                    15
                } else if d < 3 {
                    10
                } else if d < 10 {
                    5
                } else {
                    0
                }
            } else {
                22 + ctx_offset + if d == 0 {
                    5
                } else {
                    0
                }
            };
            if ctx == CabacContext::AbsLevelGtxFlag && j == 1 {
                CtxInc::Number(base + 32)
            } else {
                CtxInc::Number(base)
            }
        }
    }
}

} // verus!
