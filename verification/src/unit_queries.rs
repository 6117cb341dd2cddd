//! Questions asked of coding tree units, coding trees, coding units and transform
//! units while their syntax is coded.
use crate::cabac_contexts::{c_rice_params, spec_c_rice_param};
use crate::common::{SliceType, TreeType, Vec2d};
use crate::ctu::{CodingTree, CodingTreeUnit, CodingUnit, TileGeometry, TransformUnit};
use crate::encoder_context::EncoderContext;
use crate::level_coding::{clamp, rice_param, template_ok, template_sum};
use vstd::arithmetic::power2::pow2;
use vstd::prelude::*;

verus! {

/// The `dec_abs_level` of absolute level `v` with Rice parameter `k` in quantizer
/// state `q_state`: the level coded as zero (`1 << k`, or `2 << k` in states 2 and
/// 3) for a zero level, one less for levels up to it, the level itself above it.
pub open spec fn dec_abs_level_of(v: i16, k: nat, q_state: usize) -> usize {
    let zero_pos = (if q_state < 2 { 1int } else { 2 }) * pow2(k);
    (if v == 0 {
        zero_pos
    } else if zero_pos >= v {
        v - 1
    } else {
        v as int
    }) as usize
}

impl TransformUnit {
    /// The `dec_abs_level` of absolute level `abs_level` at (x_c, y_c) of component
    /// `c_idx`, with the Rice parameter the neighbouring levels `abs_level_map` give
    /// for a base level of 0.
    pub fn get_dec_abs_level(
        &self,
        abs_level: i16,
        c_idx: usize,
        x_c: usize,
        y_c: usize,
        q_state: usize,
        abs_level_map: &Vec2d<usize>,
    ) -> (r: usize)
        requires
            c_idx < 3,
            abs_level > i16::MIN,
            template_ok(*abs_level_map, 0, x_c, y_c, self.spec_log2_tb_size(c_idx).0, self.spec_log2_tb_size(c_idx).1),
        ensures
            ({
                let (lw, lh) = self.spec_log2_tb_size(c_idx);
                r == dec_abs_level_of(
                    abs_level,
                    rice_param(*abs_level_map, 0, x_c as int, y_c as int, pow2(lw as nat) as int, pow2(lh as nat) as int)
                        as nat,
                    q_state,
                )
            }),
    {
        let v = abs_level;
        let (log2_tb_width, log2_tb_height) = self.get_log2_tb_size(c_idx);
        proof {
            crate::bits::lemma_usize_shl_one(log2_tb_width);
            crate::bits::lemma_usize_shl_one(log2_tb_height);
        }
        let w: usize = 1 << log2_tb_width;
        let h: usize = 1 << log2_tb_height;
        let ghost a = *abs_level_map;
        let mut loc_sum_abs: usize = 0;
        if x_c < w - 1 {
            loc_sum_abs += abs_level_map.get(y_c, x_c + 1);
            if x_c < w - 2 {
                loc_sum_abs += abs_level_map.get(y_c, x_c + 2);
            }
            if y_c < h - 1 {
                loc_sum_abs += abs_level_map.get(y_c + 1, x_c + 1);
            }
        }
        if y_c < h - 1 {
            loc_sum_abs += abs_level_map.get(y_c + 1, x_c);
            if y_c < h - 2 {
                loc_sum_abs += abs_level_map.get(y_c + 2, x_c);
            }
        }
        assert(loc_sum_abs == template_sum(a, x_c as int, y_c as int, w as int, h as int));
        let clamped: usize = if loc_sum_abs > 31 {
            31
        } else {
            loc_sum_abs
        };
        assert(clamped == clamp(template_sum(a, x_c as int, y_c as int, w as int, h as int), 0, 31));
        let c_rice_param = c_rice_params(clamped);
        assert(c_rice_param <= 3);
        let z: i16 = if q_state < 2 {
            1
        } else {
            2
        };
        proof {
            vstd::arithmetic::power2::lemma2_to64();
            crate::bits::lemma_pow2_le(c_rice_param as nat, 3);
            assert(z as int * pow2(c_rice_param as nat) <= 16) by (nonlinear_arith)
                requires
                    z <= 2,
                    pow2(c_rice_param as nat) <= 8,
            ;
        }
        let zero_pos: i16 = if c_rice_param == 0 {
            z
        } else if c_rice_param == 1 {
            z * 2
        } else if c_rice_param == 2 {
            z * 4
        } else {
            z * 8
        };
        let r: i16 = if v == 0 {
            zero_pos
        } else if zero_pos >= v {
            v - 1
        } else {
            v
        };
        r as usize
    }

    /// The quantization group at column `cu_qg_top_left_x` starts a row of coding
    /// tree blocks of this unit's tile.
    pub fn is_in_first_qg_in_ctb_row_in_tile(&self, cu_qg_top_left_x: usize) -> (r: bool)
        requires
            self.tile is Some,
            self.tile.unwrap().log2_ctu_size < usize::BITS,
        ensures
            r == (cu_qg_top_left_x == self.tile.unwrap().spec_bounds().0),
    {
        let x_qg = cu_qg_top_left_x;
        let tile = self.get_tile();
        x_qg == tile.ctu_col << tile.log2_ctu_size
    }
}

impl CodingUnit {
    /// Cross-component chroma intra prediction is enabled: with `cclm_enabled_flag`,
    /// outside a dual-tree intra slice with coding tree blocks of 64 or more.
    pub fn is_cclm_enabled(
        &self,
        cclm_enabled_flag: bool,
        qtbtt_dual_tree_intra_flag: bool,
        slice_type: SliceType,
        ectx: &EncoderContext,
    ) -> (r: bool)
        requires
            !(cclm_enabled_flag && qtbtt_dual_tree_intra_flag && slice_type == SliceType::I && ectx.ctb_log2_size_y >= 6),
        ensures
            r == cclm_enabled_flag,
    {
        if cclm_enabled_flag {
            let is_i = match slice_type {
                SliceType::I => true,
                _ => false,
            };
            !qtbtt_dual_tree_intra_flag || !is_i || ectx.ctb_log2_size_y < 6
        } else {
            false
        }
    }
}

impl CodingTree {
    /// The tree type of the previous tree of component `c_idx`: the luma tree for
    /// luma, the chroma tree otherwise.
    pub fn _prev_tree_type(&self, c_idx: usize) -> (r: TreeType)
        ensures
            r == if c_idx == 0 {
                TreeType::DUAL_TREE_LUMA
            } else {
                TreeType::DUAL_TREE_CHROMA
            },
    {
        if c_idx == 0 {
            TreeType::DUAL_TREE_LUMA
        } else {
            TreeType::DUAL_TREE_CHROMA
        }
    }
}

/// The (row, column) of this unit within the coding tree units of its tile.
pub open spec fn grid_pos(c: CodingTreeUnit, t: TileGeometry) -> (int, int) {
    (c.y / c.height - t.ctu_row, c.x / c.width - t.ctu_col)
}

/// The unit's position in its tile's grid can be computed.
pub open spec fn grid_ok(c: CodingTreeUnit) -> bool {
    c.tile matches Some(t) ==> c.width > 0 && c.height > 0 && c.y / c.height >= t.ctu_row && c.x / c.width >= t.ctu_col
}

impl CodingTreeUnit {
    /// The (row, column) in its tile's grid of the coding tree unit left of this one,
    /// if it is in the tile.
    pub fn _left_ctu_in_tile(&self) -> (r: Option<(usize, usize)>)
        requires
            grid_ok(*self),
        ensures
            r == match self.tile {
                Some(t) => {
                    let (row, col) = grid_pos(*self, t);
                    if col > 0 {
                        Some((row as usize, (col - 1) as usize))
                    } else {
                        None
                    }
                },
                None => None,
            },
    {
        match self.tile {
            Some(tile) => {
                let row = self.y / self.height - tile.ctu_row;
                let col = self.x / self.width - tile.ctu_col;
                if col > 0 {
                    Some((row, col - 1))
                } else {
                    None
                }
            },
            None => None,
        }
    }

    /// The (row, column) in its tile's grid of the coding tree unit above this one,
    /// if it is in the tile.
    pub fn _above_ctu_in_tile(&self) -> (r: Option<(usize, usize)>)
        requires
            grid_ok(*self),
        ensures
            r == match self.tile {
                Some(t) => {
                    let (row, col) = grid_pos(*self, t);
                    if row > 0 {
                        Some(((row - 1) as usize, col as usize))
                    } else {
                        None
                    }
                },
                None => None,
            },
    {
        match self.tile {
            Some(tile) => {
                let row = self.y / self.height - tile.ctu_row;
                let col = self.x / self.width - tile.ctu_col;
                if row > 0 {
                    Some((row - 1, col))
                } else {
                    None
                }
            },
            None => None,
        }
    }
}

} // verus!
