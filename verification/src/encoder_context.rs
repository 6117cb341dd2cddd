//! The encoder state that the partitioning rules and the neighbour availability
//! read: sizes derived from the parameter sets, and per-sample records of the
//! blocks coded so far.
use crate::common::{ModeType, MttSplitMode, TreeType};
use vstd::arithmetic::power2::pow2;
use vstd::prelude::*;

verus! {

/// Sizes from the sequence parameters, the candidate list sizes and reference
/// counts of the slice, and records of the coded blocks, indexed by channel type,
/// then column and row (the split modes by column, row and multi-type tree depth).
pub struct EncoderContext {
    pub ctb_log2_size_y: usize,
    pub min_qt_size_y: usize,
    pub min_qt_size_c: usize,
    pub min_bt_size_y: usize,
    pub min_tt_size_y: usize,
    pub max_bt_size_y: usize,
    pub max_bt_size_c: usize,
    pub max_tt_size_y: usize,
    pub max_tt_size_c: usize,
    pub max_mtt_depth_y: usize,
    pub max_mtt_depth_c: usize,
    pub sub_width_c: usize,
    pub sub_height_c: usize,
    pub mtt_split_mode: Vec<Vec<Vec<MttSplitMode>>>,
    pub cu_pred_mode: Vec<Vec<Vec<ModeType>>>,
    pub cb_width: Vec<Vec<Vec<usize>>>,
    pub cb_height: Vec<Vec<Vec<usize>>>,
    pub bit_depth: usize,
    pub num_ref_idx_active: [usize; 2],
    pub max_num_merge_cand: usize,
    pub max_num_subblock_merge_cand: usize,
    pub max_num_ibc_merge_cand: usize,
    pub max_num_gpm_merge_cand: usize,
    pub no_backward_pred_flag: bool,
}

impl EncoderContext {
    /// The chroma subsampling factors are 1 or more, a coding tree block is at most
    /// `2^31` samples wide, and the smallest ternary split size can be doubled.
    pub open spec fn wf(self) -> bool {
        &&& self.sub_width_c >= 1
        &&& self.sub_height_c >= 1
        &&& self.ctb_log2_size_y < 32
        &&& 2 * self.min_tt_size_y <= usize::MAX
    }

    /// The split mode recorded at (x, y) for multi-type tree depth `d`.
    pub open spec fn split_mode_at(self, x: int, y: int, d: int) -> MttSplitMode {
        self.mtt_split_mode@[x]@[y]@[d]
    }

    /// (x, y, d) indexes the split mode records.
    pub open spec fn split_mode_ok(self, x: int, y: int, d: int) -> bool {
        &&& 0 <= x < self.mtt_split_mode@.len()
        &&& 0 <= y < self.mtt_split_mode@[x]@.len()
        &&& 0 <= d < self.mtt_split_mode@[x]@[y]@.len()
    }

    /// (x, y) indexes the luma prediction mode records.
    pub open spec fn pred_mode_ok(self, x: int, y: int) -> bool {
        &&& self.cu_pred_mode@.len() > 0
        &&& 0 <= x < self.cu_pred_mode@[0]@.len()
        &&& 0 <= y < self.cu_pred_mode@[0]@[x]@.len()
    }

    /// The luma prediction mode recorded at (x, y).
    pub open spec fn pred_mode_at(self, x: int, y: int) -> ModeType {
        self.cu_pred_mode@[0]@[x]@[y]
    }
}

/// A quadtree split of a `cb_size` block at multi-type tree depth `mtt_depth` is
/// allowed: not at or below the smallest quadtree size of its channel, not below a
/// multi-type split, not into chroma blocks of 4 or fewer columns, and not in a
/// chroma tree of intra-only mode.
pub open spec fn spec_allow_split_qt(e: EncoderContext, cb_size: usize, mtt_depth: usize, tree_type: TreeType, mode_type: ModeType) -> bool {
    !(((tree_type == TreeType::SINGLE_TREE || tree_type == TreeType::DUAL_TREE_LUMA) && cb_size <= e.min_qt_size_y)
        || (tree_type == TreeType::DUAL_TREE_CHROMA && cb_size <= e.min_qt_size_c) || mtt_depth > 0
        || (tree_type == TreeType::DUAL_TREE_CHROMA && cb_size / e.sub_width_c <= 4) || (tree_type
        == TreeType::DUAL_TREE_CHROMA && mode_type == ModeType::MODE_TYPE_INTRA))
}

/// The conditions that forbid a binary split `bt_split` before the parallel split
/// check: size limits, chroma sizes, mode restrictions and the picture boundary.
pub open spec fn bt_size_forbidden(
    e: EncoderContext,
    bt_split: MttSplitMode,
    cb_width: usize,
    cb_height: usize,
    x0: usize,
    y0: usize,
    mtt_depth: usize,
    max_mtt_depth: usize,
    max_tt_size: usize,
    min_qt_size: usize,
    tree_type: TreeType,
    mode_type: ModeType,
    pic_width_in_luma_samples: usize,
    pic_height_in_luma_samples: usize,
) -> bool {
    let cb_size = if bt_split == MttSplitMode::SPLIT_BT_VER { cb_width } else { cb_height };
    ||| cb_size <= e.min_bt_size_y
    ||| cb_width > max_tt_size
    ||| cb_height > max_tt_size
    ||| mtt_depth >= max_mtt_depth
    ||| tree_type == TreeType::DUAL_TREE_CHROMA && (cb_width / e.sub_width_c) * (cb_height / e.sub_height_c) <= 16
    ||| tree_type == TreeType::DUAL_TREE_CHROMA && cb_width / e.sub_width_c == 4 && bt_split == MttSplitMode::SPLIT_BT_VER
    ||| tree_type == TreeType::DUAL_TREE_CHROMA && mode_type == ModeType::MODE_TYPE_INTRA
    ||| cb_width * cb_height == 32 && mode_type == ModeType::MODE_TYPE_INTER
    ||| bt_split == MttSplitMode::SPLIT_BT_VER && y0 + cb_height > pic_height_in_luma_samples
    ||| bt_split == MttSplitMode::SPLIT_BT_VER && cb_height > 64 && x0 + cb_width > pic_width_in_luma_samples
    ||| bt_split == MttSplitMode::SPLIT_BT_HOR && cb_width > 64 && y0 + cb_height > pic_height_in_luma_samples
    ||| x0 + cb_width > pic_width_in_luma_samples && y0 + cb_height > pic_height_in_luma_samples && cb_width > min_qt_size
    ||| bt_split == MttSplitMode::SPLIT_BT_HOR && x0 + cb_width > pic_width_in_luma_samples && y0 + cb_height
        <= pic_height_in_luma_samples
}

/// A binary split `bt_split` of the second part of a ternary split in the same
/// direction at the previous depth repeats a split the ternary one could make.
pub open spec fn bt_parallel_forbidden(e: EncoderContext, bt_split: MttSplitMode, x0: usize, y0: usize, mtt_depth: usize, part_idx: usize) -> bool {
    let parallel_tt_split = if bt_split == MttSplitMode::SPLIT_BT_VER {
        MttSplitMode::SPLIT_TT_VER
    } else {
        MttSplitMode::SPLIT_TT_HOR
    };
    mtt_depth > 0 && part_idx == 1 && e.split_mode_at(x0 as int, y0 as int, mtt_depth - 1) == parallel_tt_split
}

/// A binary split `bt_split` of a `cb_width` by `cb_height` block at (x0, y0) is
/// allowed: none of the size, mode, boundary and parallel split conditions forbid
/// it, and it would not split a block of at most 64 by 64 samples in a way the
/// 64-sample pipeline rules out.
pub open spec fn spec_allow_split_bt(
    e: EncoderContext,
    bt_split: MttSplitMode,
    cb_width: usize,
    cb_height: usize,
    x0: usize,
    y0: usize,
    mtt_depth: usize,
    max_mtt_depth: usize,
    max_tt_size: usize,
    min_qt_size: usize,
    part_idx: usize,
    tree_type: TreeType,
    mode_type: ModeType,
    pic_width_in_luma_samples: usize,
    pic_height_in_luma_samples: usize,
) -> bool {
    !(bt_size_forbidden(
        e,
        bt_split,
        cb_width,
        cb_height,
        x0,
        y0,
        mtt_depth,
        max_mtt_depth,
        max_tt_size,
        min_qt_size,
        tree_type,
        mode_type,
        pic_width_in_luma_samples,
        pic_height_in_luma_samples,
    ) || bt_parallel_forbidden(e, bt_split, x0, y0, mtt_depth, part_idx) || (bt_split == MttSplitMode::SPLIT_BT_VER
        && cb_width <= 64 && cb_height <= 64) || (bt_split == MttSplitMode::SPLIT_BT_HOR && cb_width > 64 && cb_height
        <= 64))
}

/// A ternary split `tt_split` of a `cb_width` by `cb_height` block at (x0, y0) is
/// allowed: the split side exceeds twice the smallest ternary size, the block
/// fits the largest ternary size (at most 64) and the picture, the chroma blocks
/// stay large enough, and the mode allows it.
pub open spec fn spec_allow_split_tt(
    e: EncoderContext,
    tt_split: MttSplitMode,
    cb_width: usize,
    cb_height: usize,
    x0: usize,
    y0: usize,
    max_tt_size: usize,
    tree_type: TreeType,
    mode_type: ModeType,
    pic_width_in_luma_samples: usize,
    pic_height_in_luma_samples: usize,
) -> bool {
    let cb_size = if tt_split == MttSplitMode::SPLIT_TT_VER { cb_width } else { cb_height };
    let max_size = if max_tt_size < 64 { max_tt_size } else { 64 };
    &&& cb_size > 2 * e.min_tt_size_y
    &&& cb_width <= max_size
    &&& cb_height <= max_size
    &&& x0 + cb_width <= pic_width_in_luma_samples
    &&& y0 + cb_height <= pic_height_in_luma_samples
    &&& tree_type != TreeType::DUAL_TREE_CHROMA || (cb_width / e.sub_width_c) * (cb_height / e.sub_height_c) > 32
    &&& tree_type != TreeType::DUAL_TREE_CHROMA || cb_width / e.sub_width_c != 8 || tt_split != MttSplitMode::SPLIT_TT_VER
    &&& tree_type != TreeType::DUAL_TREE_CHROMA || mode_type != ModeType::MODE_TYPE_INTRA
    &&& cb_width * cb_height != 64 || mode_type != ModeType::MODE_TYPE_INTER
}

/// The neighbouring luma location (x_nb, y_nb) of the block at (x_curr, y_curr),
/// `width` by `height`, is available: inside the picture, in a coding tree block
/// row not below and a column not right of the current one unless in a row above,
/// inside the block's right and lower edges unless the above-right or below-left
/// area is known available, in the same or the previous column of coding tree
/// blocks under entropy coding sync, and (when asked) coded in the same luma
/// prediction mode.
pub open spec fn spec_neighbour_available(
    e: EncoderContext,
    x_curr: usize,
    y_curr: usize,
    x_nb: isize,
    y_nb: isize,
    width: usize,
    height: usize,
    is_above_right_available: bool,
    is_below_left_available: bool,
    check_pred_mode_y: bool,
    pic_width_in_luma_samples: usize,
    pic_height_in_luma_samples: usize,
    entropy_coding_sync_enabled_flag: bool,
) -> bool {
    let s = pow2(e.ctb_log2_size_y as nat) as int;
    let (xn, yn, xc, yc) = (x_nb as int, y_nb as int, x_curr as int, y_curr as int);
    let available = xn >= 0 && yn >= 0 && xn < pic_width_in_luma_samples && yn < pic_height_in_luma_samples && (xn / s
        <= xc / s || yn / s < yc / s) && yn / s < yc / s + 1 && (xn < xc + width || is_above_right_available) && (yn
        < yc + height || is_below_left_available) && (!entropy_coding_sync_enabled_flag || xn / s < xc / s + 1);
    available && !(check_pred_mode_y && e.pred_mode_at(x_nb as int, y_nb as int) != e.pred_mode_at(
        x_curr as int,
        y_curr as int,
    ))
}

impl EncoderContext {
    /// Whether a quadtree split of a `cb_size` block at multi-type tree depth
    /// `mtt_depth` is allowed.
    pub fn derive_allow_split_qt(&self, cb_size: usize, mtt_depth: usize, tree_type: TreeType, mode_type: ModeType) -> (r: bool)
        requires
            self.wf(),
        ensures
            r == spec_allow_split_qt(*self, cb_size, mtt_depth, tree_type, mode_type),
    {
        !(((tree_type == TreeType::SINGLE_TREE || tree_type == TreeType::DUAL_TREE_LUMA) && cb_size
            <= self.min_qt_size_y) || (tree_type == TreeType::DUAL_TREE_CHROMA && cb_size <= self.min_qt_size_c)
            || mtt_depth > 0 || (tree_type == TreeType::DUAL_TREE_CHROMA && (cb_size / self.sub_width_c) <= 4) || (
        tree_type == TreeType::DUAL_TREE_CHROMA && mode_type == ModeType::MODE_TYPE_INTRA))
    }

    /// Whether the binary split `bt_split` of a `cb_width` by `cb_height` block at
    /// (x0, y0), part `part_idx` of its parent at multi-type tree depth
    /// `mtt_depth`, is allowed.
    pub fn derive_allow_split_bt(
        &self,
        bt_split: MttSplitMode,
        cb_width: usize,
        cb_height: usize,
        x0: usize,
        y0: usize,
        mtt_depth: usize,
        max_mtt_depth: usize,
        max_tt_size: usize,
        min_qt_size: usize,
        part_idx: usize,
        tree_type: TreeType,
        mode_type: ModeType,
        pic_width_in_luma_samples: usize,
        pic_height_in_luma_samples: usize,
    ) -> (r: bool)
        requires
            self.wf(),
            cb_width * cb_height <= usize::MAX,
            x0 + cb_width <= usize::MAX,
            y0 + cb_height <= usize::MAX,
            !bt_size_forbidden(
                *self,
                bt_split,
                cb_width,
                cb_height,
                x0,
                y0,
                mtt_depth,
                max_mtt_depth,
                max_tt_size,
                min_qt_size,
                tree_type,
                mode_type,
                pic_width_in_luma_samples,
                pic_height_in_luma_samples,
            ) && mtt_depth > 0 && part_idx == 1 ==> self.split_mode_ok(x0 as int, y0 as int, mtt_depth - 1),
        ensures
            r == spec_allow_split_bt(
                *self,
                bt_split,
                cb_width,
                cb_height,
                x0,
                y0,
                mtt_depth,
                max_mtt_depth,
                max_tt_size,
                min_qt_size,
                part_idx,
                tree_type,
                mode_type,
                pic_width_in_luma_samples,
                pic_height_in_luma_samples,
            ),
    {
        let parallel_tt_split = if bt_split == MttSplitMode::SPLIT_BT_VER {
            MttSplitMode::SPLIT_TT_VER
        } else {
            MttSplitMode::SPLIT_TT_HOR
        };
        let cb_size = if bt_split == MttSplitMode::SPLIT_BT_VER {
            cb_width
        } else {
            cb_height
        };
        proof {
            assert((cb_width / self.sub_width_c) * (cb_height / self.sub_height_c) <= cb_width * cb_height) by (nonlinear_arith)
                requires
                    self.sub_width_c >= 1,
                    self.sub_height_c >= 1,
            ;
        }
        let forbidden = cb_size <= self.min_bt_size_y || cb_width > max_tt_size || cb_height > max_tt_size
            || mtt_depth >= max_mtt_depth || (tree_type == TreeType::DUAL_TREE_CHROMA && (cb_width / self.sub_width_c)
            * (cb_height / self.sub_height_c) <= 16) || (tree_type == TreeType::DUAL_TREE_CHROMA && (cb_width
            / self.sub_width_c) == 4 && bt_split == MttSplitMode::SPLIT_BT_VER) || (tree_type
            == TreeType::DUAL_TREE_CHROMA && mode_type == ModeType::MODE_TYPE_INTRA) || (cb_width * cb_height == 32
            && mode_type == ModeType::MODE_TYPE_INTER) || (bt_split == MttSplitMode::SPLIT_BT_VER && y0 + cb_height
            > pic_height_in_luma_samples) || (bt_split == MttSplitMode::SPLIT_BT_VER && cb_height > 64 && x0 + cb_width
            > pic_width_in_luma_samples) || (bt_split == MttSplitMode::SPLIT_BT_HOR && cb_width > 64 && y0 + cb_height
            > pic_height_in_luma_samples) || (x0 + cb_width > pic_width_in_luma_samples && y0 + cb_height
            > pic_height_in_luma_samples && cb_width > min_qt_size) || (bt_split == MttSplitMode::SPLIT_BT_HOR && x0
            + cb_width > pic_width_in_luma_samples && y0 + cb_height <= pic_height_in_luma_samples);
        !(forbidden || (mtt_depth > 0 && part_idx == 1 && self.mtt_split_mode[x0][y0][mtt_depth - 1]
            == parallel_tt_split) || (bt_split == MttSplitMode::SPLIT_BT_VER && cb_width <= 64 && cb_height <= 64)
            || (bt_split == MttSplitMode::SPLIT_BT_HOR && cb_width > 64 && cb_height <= 64))
    }

    /// Whether the ternary split `tt_split` of a `cb_width` by `cb_height` block at
    /// (x0, y0) is allowed.
    pub fn _derive_allow_split_tt(
        &self,
        tt_split: MttSplitMode,
        cb_width: usize,
        cb_height: usize,
        x0: usize,
        y0: usize,
        max_tt_size: usize,
        tree_type: TreeType,
        mode_type: ModeType,
        pic_width_in_luma_samples: usize,
        pic_height_in_luma_samples: usize,
    ) -> (r: bool)
        requires
            self.wf(),
            cb_width * cb_height <= usize::MAX,
            x0 + cb_width <= usize::MAX,
            y0 + cb_height <= usize::MAX,
        ensures
            r == spec_allow_split_tt(
                *self,
                tt_split,
                cb_width,
                cb_height,
                x0,
                y0,
                max_tt_size,
                tree_type,
                mode_type,
                pic_width_in_luma_samples,
                pic_height_in_luma_samples,
            ),
    {
        let cb_size = if tt_split == MttSplitMode::SPLIT_TT_VER {
            cb_width
        } else {
            cb_height
        };
        let max_size = if max_tt_size < 64 {
            max_tt_size
        } else {
            64
        };
        proof {
            assert((cb_width / self.sub_width_c) * (cb_height / self.sub_height_c) <= cb_width * cb_height) by (nonlinear_arith)
                requires
                    self.sub_width_c >= 1,
                    self.sub_height_c >= 1,
            ;
        }
        cb_size > 2 * self.min_tt_size_y && cb_width <= max_size && cb_height <= max_size && x0 + cb_width
            <= pic_width_in_luma_samples && y0 + cb_height <= pic_height_in_luma_samples && (tree_type
            != TreeType::DUAL_TREE_CHROMA || (cb_width / self.sub_width_c) * (cb_height / self.sub_height_c) > 32) && (
        tree_type != TreeType::DUAL_TREE_CHROMA || cb_width / self.sub_width_c != 8 || tt_split
            != MttSplitMode::SPLIT_TT_VER) && (tree_type != TreeType::DUAL_TREE_CHROMA || mode_type
            != ModeType::MODE_TYPE_INTRA) && (cb_width * cb_height != 64 || mode_type != ModeType::MODE_TYPE_INTER)
    }

    /// Whether the neighbouring luma location (x_nb_y, y_nb_y) of the block at
    /// (x_curr, y_curr), `width` by `height`, is available.
    pub fn derive_neighbouring_block_availability(
        &self,
        x_curr: usize,
        y_curr: usize,
        x_nb_y: isize,
        y_nb_y: isize,
        width: usize,
        height: usize,
        is_above_right_available: bool,
        is_below_left_available: bool,
        check_pred_mode_y: bool,
        pic_width_in_luma_samples: usize,
        pic_height_in_luma_samples: usize,
        entropy_coding_sync_enabled_flag: bool,
    ) -> (r: bool)
        requires
            self.wf(),
            x_curr + width <= isize::MAX,
            y_curr + height <= isize::MAX,
            check_pred_mode_y ==> self.pred_mode_ok(x_nb_y as int, y_nb_y as int) && self.pred_mode_ok(
                x_curr as int,
                y_curr as int,
            ),
        ensures
            r == spec_neighbour_available(
                *self,
                x_curr,
                y_curr,
                x_nb_y,
                y_nb_y,
                width,
                height,
                is_above_right_available,
                is_below_left_available,
                check_pred_mode_y,
                pic_width_in_luma_samples,
                pic_height_in_luma_samples,
                entropy_coding_sync_enabled_flag,
            ),
    {
        let c = self.ctb_log2_size_y;
        proof {
            vstd::bits::lemma_usize_shr_is_div(x_curr, c);
            vstd::bits::lemma_usize_shr_is_div(y_curr, c);
            crate::bits::lemma_usize_shl_one(c);
        }
        let mut available_n = x_nb_y >= 0 && y_nb_y >= 0 && (x_nb_y as usize) < pic_width_in_luma_samples && (y_nb_y
            as usize) < pic_height_in_luma_samples && {
            let x_nb = x_nb_y as usize;
            let y_nb = y_nb_y as usize;
            proof {
                vstd::bits::lemma_usize_shr_is_div(x_nb, c);
                vstd::bits::lemma_usize_shr_is_div(y_nb, c);
            }
            ((x_nb >> c) <= (x_curr >> c) || (y_nb >> c) < (y_curr >> c)) && (y_nb >> c) < (y_curr >> c) + 1 && (x_nb
                < x_curr + width || is_above_right_available) && (y_nb < y_curr + height || is_below_left_available)
                && (!entropy_coding_sync_enabled_flag || (x_nb >> c) < (x_curr >> c) + 1)
        };
        if check_pred_mode_y && self.cu_pred_mode[0][x_nb_y as usize][y_nb_y as usize]
            != self.cu_pred_mode[0][x_curr][y_curr] {
            available_n = false;
        }
        available_n
    }
}

/// Below a multi-type split no quadtree split is allowed.
pub proof fn law_no_quadtree_below_multi_type_split(
    e: EncoderContext,
    cb_size: usize,
    mtt_depth: usize,
    tree_type: TreeType,
    mode_type: ModeType,
)
    requires
        mtt_depth > 0,
    ensures
        !spec_allow_split_qt(e, cb_size, mtt_depth, tree_type, mode_type),
{
}

/// A block at the deepest multi-type tree depth allowed may not be split in two.
pub proof fn law_no_binary_split_beyond_max_depth(
    e: EncoderContext,
    bt_split: MttSplitMode,
    cb_width: usize,
    cb_height: usize,
    x0: usize,
    y0: usize,
    mtt_depth: usize,
    max_mtt_depth: usize,
    max_tt_size: usize,
    min_qt_size: usize,
    part_idx: usize,
    tree_type: TreeType,
    mode_type: ModeType,
    pic_width_in_luma_samples: usize,
    pic_height_in_luma_samples: usize,
)
    requires
        mtt_depth >= max_mtt_depth,
    ensures
        !spec_allow_split_bt(
            e,
            bt_split,
            cb_width,
            cb_height,
            x0,
            y0,
            mtt_depth,
            max_mtt_depth,
            max_tt_size,
            min_qt_size,
            part_idx,
            tree_type,
            mode_type,
            pic_width_in_luma_samples,
            pic_height_in_luma_samples,
        ),
{
}

/// A ternary split needs its split side to exceed twice the smallest ternary size
/// and the block to fit in the picture.
pub proof fn law_ternary_split_needs_room(
    e: EncoderContext,
    tt_split: MttSplitMode,
    cb_width: usize,
    cb_height: usize,
    x0: usize,
    y0: usize,
    max_tt_size: usize,
    tree_type: TreeType,
    mode_type: ModeType,
    pic_width_in_luma_samples: usize,
    pic_height_in_luma_samples: usize,
)
    requires
        spec_allow_split_tt(
            e,
            tt_split,
            cb_width,
            cb_height,
            x0,
            y0,
            max_tt_size,
            tree_type,
            mode_type,
            pic_width_in_luma_samples,
            pic_height_in_luma_samples,
        ),
    ensures
        (if tt_split == MttSplitMode::SPLIT_TT_VER { cb_width } else { cb_height }) > 2 * e.min_tt_size_y,
        x0 + cb_width <= pic_width_in_luma_samples,
        y0 + cb_height <= pic_height_in_luma_samples,
        cb_width <= 64 && cb_height <= 64,
{
}

/// A location outside the picture is never an available neighbour.
pub proof fn law_outside_the_picture_is_unavailable(
    e: EncoderContext,
    x_curr: usize,
    y_curr: usize,
    x_nb: isize,
    y_nb: isize,
    width: usize,
    height: usize,
    is_above_right_available: bool,
    is_below_left_available: bool,
    check_pred_mode_y: bool,
    pic_width_in_luma_samples: usize,
    pic_height_in_luma_samples: usize,
    entropy_coding_sync_enabled_flag: bool,
)
    requires
        x_nb < 0 || y_nb < 0 || x_nb >= pic_width_in_luma_samples || y_nb >= pic_height_in_luma_samples,
    ensures
        !spec_neighbour_available(
            e,
            x_curr,
            y_curr,
            x_nb,
            y_nb,
            width,
            height,
            is_above_right_available,
            is_below_left_available,
            check_pred_mode_y,
            pic_width_in_luma_samples,
            pic_height_in_luma_samples,
            entropy_coding_sync_enabled_flag,
        ),
{
}

} // verus!
