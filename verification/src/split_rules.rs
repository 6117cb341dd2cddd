//! Which splits a coding tree node may take, by the partitioning rules.
use crate::common::{MttSplitMode, TreeType};
use crate::ctu::CodingTree;
use crate::encoder_context::{bt_size_forbidden, spec_allow_split_bt, spec_allow_split_qt, EncoderContext};
use vstd::prelude::*;

verus! {

/// The smallest quadtree size, the largest `bt` (binary) or ternary size and the
/// deepest multi-type tree depth for the channel of node `ct`.
pub open spec fn ct_limits(e: EncoderContext, ct: CodingTree, ternary: bool) -> (usize, usize, int) {
    if ct.tree_type == TreeType::DUAL_TREE_CHROMA {
        (e.min_qt_size_c, if ternary { e.max_tt_size_c } else { e.max_bt_size_c }, e.max_mtt_depth_c + ct.depth_offset)
    } else {
        (e.min_qt_size_y, if ternary { e.max_tt_size_y } else { e.max_bt_size_y }, e.max_mtt_depth_y + ct.depth_offset)
    }
}

/// Node `ct` may be split as `split_mode` by the binary split rule, with the limits
/// of binary (or, when `ternary`, ternary) splits of its channel.
pub open spec fn ct_allow_split(e: EncoderContext, ct: CodingTree, split_mode: MttSplitMode, ternary: bool, pic_width: usize, pic_height: usize) -> bool {
    let (min_qt_size, max_size, max_mtt_depth) = ct_limits(e, ct, ternary);
    spec_allow_split_bt(
        e,
        split_mode,
        ct.width,
        ct.height,
        ct.x,
        ct.y,
        (ct.depth - ct.cqt_depth) as usize,
        max_mtt_depth as usize,
        max_size,
        min_qt_size,
        ct.part_idx,
        ct.tree_type,
        ct.mode_type,
        pic_width,
        pic_height,
    )
}

/// The binary split rule can be evaluated for node `ct`: its depths, sizes and
/// position fit, and the split mode record it may read exists.
pub open spec fn ct_split_ok(e: EncoderContext, ct: CodingTree, split_mode: MttSplitMode, ternary: bool, pic_width: usize, pic_height: usize) -> bool {
    let (min_qt_size, max_size, max_mtt_depth) = ct_limits(e, ct, ternary);
    let mtt_depth = (ct.depth - ct.cqt_depth) as usize;
    &&& e.wf()
    &&& ct.cqt_depth <= ct.depth
    &&& max_mtt_depth <= usize::MAX
    &&& ct.width * ct.height <= usize::MAX
    &&& ct.x + ct.width <= usize::MAX
    &&& ct.y + ct.height <= usize::MAX
    &&& !bt_size_forbidden(
        e,
        split_mode,
        ct.width,
        ct.height,
        ct.x,
        ct.y,
        mtt_depth,
        max_mtt_depth as usize,
        max_size,
        min_qt_size,
        ct.tree_type,
        ct.mode_type,
        pic_width,
        pic_height,
    ) && mtt_depth > 0 && ct.part_idx == 1 ==> e.split_mode_ok(ct.x as int, ct.y as int, mtt_depth - 1)
}

impl CodingTree {
    /// Whether this node may be split by a quadtree.
    pub fn allow_split_qt(&self, ectx: &EncoderContext) -> (r: bool)
        requires
            ectx.wf(),
            self.cqt_depth <= self.depth,
        ensures
            r == spec_allow_split_qt(*ectx, self.width, (self.depth - self.cqt_depth) as usize, self.tree_type, self.mode_type),
    {
        ectx.derive_allow_split_qt(self.width, self.depth - self.cqt_depth, self.tree_type, self.mode_type)
    }

    /// Whether this node may take the binary split `split_mode` in a picture of
    /// `pic_width_in_luma_samples` by `pic_height_in_luma_samples`.
    pub fn allow_split_bt(
        &self,
        split_mode: MttSplitMode,
        pic_width_in_luma_samples: usize,
        pic_height_in_luma_samples: usize,
        ectx: &EncoderContext,
    ) -> (r: bool)
        requires
            ct_split_ok(*ectx, *self, split_mode, false, pic_width_in_luma_samples, pic_height_in_luma_samples),
        ensures
            r == ct_allow_split(*ectx, *self, split_mode, false, pic_width_in_luma_samples, pic_height_in_luma_samples),
    {
        let (min_qt_size, max_bt_size, max_mtt_depth) = if self.tree_type == TreeType::DUAL_TREE_CHROMA {
            (ectx.min_qt_size_c, ectx.max_bt_size_c, ectx.max_mtt_depth_c + self.depth_offset)
        } else {
            (ectx.min_qt_size_y, ectx.max_bt_size_y, ectx.max_mtt_depth_y + self.depth_offset)
        };
        ectx.derive_allow_split_bt(
            split_mode,
            self.width,
            self.height,
            self.x,
            self.y,
            self.depth - self.cqt_depth,
            max_mtt_depth,
            max_bt_size,
            min_qt_size,
            self.part_idx,
            self.tree_type,
            self.mode_type,
            pic_width_in_luma_samples,
            pic_height_in_luma_samples,
        )
    }

    /// Whether this node may take the ternary split `split_mode`: the binary split
    /// rule, evaluated with the ternary size limits of its channel.
    pub fn allow_split_tt(
        &self,
        split_mode: MttSplitMode,
        pic_width_in_luma_samples: usize,
        pic_height_in_luma_samples: usize,
        ectx: &EncoderContext,
    ) -> (r: bool)
        requires
            ct_split_ok(*ectx, *self, split_mode, true, pic_width_in_luma_samples, pic_height_in_luma_samples),
        ensures
            r == ct_allow_split(*ectx, *self, split_mode, true, pic_width_in_luma_samples, pic_height_in_luma_samples),
    {
        let (min_qt_size, max_tt_size, max_mtt_depth) = if self.tree_type == TreeType::DUAL_TREE_CHROMA {
            (ectx.min_qt_size_c, ectx.max_tt_size_c, ectx.max_mtt_depth_c + self.depth_offset)
        } else {
            (ectx.min_qt_size_y, ectx.max_tt_size_y, ectx.max_mtt_depth_y + self.depth_offset)
        };
        ectx.derive_allow_split_bt(
            split_mode,
            self.width,
            self.height,
            self.x,
            self.y,
            self.depth - self.cqt_depth,
            max_mtt_depth,
            max_tt_size,
            min_qt_size,
            self.part_idx,
            self.tree_type,
            self.mode_type,
            pic_width_in_luma_samples,
            pic_height_in_luma_samples,
        )
    }
}

} // verus!
