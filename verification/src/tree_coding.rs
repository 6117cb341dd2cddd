//! Coding the syntax elements of coding tree nodes and coding units: each bin with
//! the context its derivation selects from the node, the unit and its neighbours.
use crate::bins::{appended, Bins};
use crate::bool_coder::{
    bin_process_bits, bin_process_domain, bin_process_ok, ctx_entry_ok, cu_qp_delta_abs_bits, fl_bits, fl_len, icpm_bits,
    init_type_of, ipi_bits, legk_bits, tb_bits, tr_bits, BoolCoder,
};
use crate::bits::{bit_length, fits, ilog2};
use vstd::arithmetic::power2::pow2;
use crate::cabac_contexts::{ctx_inc_row, spec_ctx_inc_row, spec_ctx_to_bin_process, CabacContext, CtxInc};
use crate::common::{ModeType, MttSplitMode, SliceType, TreeType};
use crate::ctu::{CodingTree, CodingUnit};
use crate::element_coding::{coded_in, ctx_of_inc, inc_entry_ok, inc_ok};
use crate::encoder_context::{spec_allow_split_qt, EncoderContext};
use crate::neighbour_ctx::{
    b2i, block_ok, ct_neighbour_ctx, cu_neighbour_ctx, cu_neighbours_ok, is_cu_neighbour_flag, left_above_available,
    size_entry_ok, vertical_flag_ctx, PictureGeometry,
};
use crate::split_rules::{ct_allow_split, ct_split_ok};
use crate::syntax_coding::bin_rule;
use vstd::prelude::*;

verus! {

/// The splits node `ct` allows: binary vertical and horizontal, ternary vertical
/// and horizontal, and quadtree.
pub open spec fn ct_allows(e: EncoderContext, ct: CodingTree, g: PictureGeometry) -> (bool, bool, bool, bool, bool) {
    (
        ct_allow_split(e, ct, MttSplitMode::SPLIT_BT_VER, false, g.pic_width_in_luma_samples, g.pic_height_in_luma_samples),
        ct_allow_split(e, ct, MttSplitMode::SPLIT_BT_HOR, false, g.pic_width_in_luma_samples, g.pic_height_in_luma_samples),
        ct_allow_split(e, ct, MttSplitMode::SPLIT_TT_VER, true, g.pic_width_in_luma_samples, g.pic_height_in_luma_samples),
        ct_allow_split(e, ct, MttSplitMode::SPLIT_TT_HOR, true, g.pic_width_in_luma_samples, g.pic_height_in_luma_samples),
        spec_allow_split_qt(e, ct.width, (ct.depth - ct.cqt_depth) as usize, ct.tree_type, ct.mode_type),
    )
}

/// The split rules can be evaluated for all four multi-type splits of `ct`.
pub open spec fn ct_allows_ok(e: EncoderContext, ct: CodingTree, g: PictureGeometry) -> bool {
    &&& ct_split_ok(e, ct, MttSplitMode::SPLIT_BT_VER, false, g.pic_width_in_luma_samples, g.pic_height_in_luma_samples)
    &&& ct_split_ok(e, ct, MttSplitMode::SPLIT_BT_HOR, false, g.pic_width_in_luma_samples, g.pic_height_in_luma_samples)
    &&& ct_split_ok(e, ct, MttSplitMode::SPLIT_TT_VER, true, g.pic_width_in_luma_samples, g.pic_height_in_luma_samples)
    &&& ct_split_ok(e, ct, MttSplitMode::SPLIT_TT_HOR, true, g.pic_width_in_luma_samples, g.pic_height_in_luma_samples)
}

/// The channel type of node `ct`: 1 for a chroma tree.
pub open spec fn ct_ch_type(ct: CodingTree) -> usize {
    if ct.tree_type == crate::common::TreeType::DUAL_TREE_CHROMA {
        1
    } else {
        0
    }
}

/// An optional reference, as an optional value.
pub open spec fn opt<T>(o: Option<&T>) -> Option<T> {
    match o {
        Some(v) => Some(*v),
        None => None,
    }
}

/// The context increment of bin `bin_idx` of coding tree syntax element `ctx` of
/// node `ct`: the binary flag by the split direction and depth, the vertical flag
/// and the split flags by the allowed splits and the neighbouring nodes `left` and
/// `above` (and `above_cu`, first unit of the above node); other elements by their
/// table rule.
pub open spec fn ct_inc(
    e: EncoderContext,
    ct: CodingTree,
    bin_idx: usize,
    ctx: CabacContext,
    left: Option<CodingTree>,
    above: Option<CodingTree>,
    above_cu: Option<CodingUnit>,
    g: PictureGeometry,
) -> CtxInc {
    let (bv, bh, tv, th, qt) = ct_allows(e, ct, g);
    let (available_l, available_a) = left_above_available(e, ct.x, ct.y, ct.width, ct.height, g);
    match ctx {
        CabacContext::MttSplitCuBinaryFlag => CtxInc::Number(
            ((if ct.split_mode == MttSplitMode::SPLIT_BT_VER || ct.split_mode == MttSplitMode::SPLIT_TT_VER {
                2int
            } else {
                0
            }) + (if ct.depth <= 1 { 1int } else { 0 })) as usize,
        ),
        CabacContext::MttSplitCuVerticalFlag => CtxInc::Number(
            vertical_flag_ctx(e, ct.x, ct.y, ct_ch_type(ct), ct.width, ct.height, bv, bh, tv, th, g),
        ),
        CabacContext::SplitCuFlag | CabacContext::SplitQtFlag | CabacContext::NonInterFlag => CtxInc::Number(
            ct_neighbour_ctx(
                ctx,
                available_l,
                available_a,
                left,
                above,
                above_cu,
                ct.cqt_depth,
                ct.width,
                ct.height,
                b2i(bv) + b2i(bh) + b2i(tv) + b2i(th) + 2 * b2i(qt),
            ),
        ),
        _ => bin_rule(ctx, bin_idx as int),
    }
}

/// The context increment of bin `bin_idx` of `ctx` of node `ct` can be derived: the
/// split rules and the neighbour records it reads are there.
pub open spec fn ct_inc_ok(
    e: EncoderContext,
    ct: CodingTree,
    ctx: CabacContext,
    left: Option<CodingTree>,
    above: Option<CodingTree>,
    above_cu: Option<CodingUnit>,
    g: PictureGeometry,
) -> bool {
    let (bv, bh, tv, th, qt) = ct_allows(e, ct, g);
    let (available_l, available_a) = left_above_available(e, ct.x, ct.y, ct.width, ct.height, g);
    match ctx {
        CabacContext::MttSplitCuVerticalFlag => {
            &&& ct_allows_ok(e, ct, g)
            &&& block_ok(e, ct.x, ct.y, ct.width, ct.height)
            &&& available_a ==> size_entry_ok(e.cb_width@, ct_ch_type(ct), ct.x as int, ct.y - 1)
            &&& available_l ==> size_entry_ok(e.cb_height@, ct_ch_type(ct), ct.x - 1, ct.y as int)
        },
        CabacContext::SplitCuFlag | CabacContext::SplitQtFlag | CabacContext::NonInterFlag => {
            &&& ct_allows_ok(e, ct, g)
            &&& block_ok(e, ct.x, ct.y, ct.width, ct.height)
            &&& ctx != CabacContext::NonInterFlag ==> (available_l ==> left is Some) && (available_a ==> above is Some)
            &&& ctx == CabacContext::SplitCuFlag ==> bv || bh || tv || th || qt
            &&& ctx == CabacContext::NonInterFlag ==> above_cu is Some
        },
        _ => true,
    }
}

impl BoolCoder {
    /// The context index and bypass flag of bin `bin_idx` of coding tree syntax
    /// element `ctx` of node `ct`, whose left and above neighbours lie in the nodes
    /// `left_ct` and `above_ct` (`above_cu` the first unit of the latter).
    pub fn derive_context_and_bypass_flag_ct(
        &self,
        bin_idx: usize,
        ctx: CabacContext,
        ct: &CodingTree,
        left_ct: Option<&CodingTree>,
        above_ct: Option<&CodingTree>,
        above_cu: Option<&CodingUnit>,
        slice_type: SliceType,
        cabac_init_flag: bool,
        geometry: PictureGeometry,
        ectx: &EncoderContext,
    ) -> (r: (usize, bool))
        requires
            ct_inc_ok(*ectx, *ct, ctx, opt(left_ct), opt(above_ct), opt(above_cu), geometry),
            inc_ok(
                ctx,
                ct_inc(*ectx, *ct, bin_idx, ctx, opt(left_ct), opt(above_ct), opt(above_cu), geometry),
                init_type_of(slice_type, cabac_init_flag),
            ),
        ensures
            ({
                let s = ctx_of_inc(
                    ctx,
                    ct_inc(*ectx, *ct, bin_idx, ctx, opt(left_ct), opt(above_ct), opt(above_cu), geometry),
                    init_type_of(slice_type, cabac_init_flag),
                );
                r.0 == s.0 && r.1 == s.1
            }),
    {
        let pw = geometry.pic_width_in_luma_samples;
        let ph = geometry.pic_height_in_luma_samples;
        let inc = match ctx {
            CabacContext::MttSplitCuBinaryFlag => self.derive_ctx_inc_for_mtt_split_cu_binary_flag(
                ct.mtt_split_cu_vertical_flag(),
                ct.depth,
            ),
            CabacContext::MttSplitCuVerticalFlag => {
                let allow_split_bt_ver = ct.allow_split_bt(MttSplitMode::SPLIT_BT_VER, pw, ph, ectx);
                let allow_split_bt_hor = ct.allow_split_bt(MttSplitMode::SPLIT_BT_HOR, pw, ph, ectx);
                let allow_split_tt_ver = ct.allow_split_tt(MttSplitMode::SPLIT_TT_VER, pw, ph, ectx);
                let allow_split_tt_hor = ct.allow_split_tt(MttSplitMode::SPLIT_TT_HOR, pw, ph, ectx);
                self.derive_ctx_inc_for_mtt_split_cu_vertical_flag(
                    ct.x,
                    ct.y,
                    ct.ch_type(),
                    ct.width,
                    ct.height,
                    allow_split_bt_ver,
                    allow_split_bt_hor,
                    allow_split_tt_ver,
                    allow_split_tt_hor,
                    geometry,
                    ectx,
                )
            },
            CabacContext::SplitCuFlag | CabacContext::SplitQtFlag | CabacContext::NonInterFlag => {
                let allow_split_bt_ver = ct.allow_split_bt(MttSplitMode::SPLIT_BT_VER, pw, ph, ectx);
                let allow_split_bt_hor = ct.allow_split_bt(MttSplitMode::SPLIT_BT_HOR, pw, ph, ectx);
                let allow_split_tt_ver = ct.allow_split_tt(MttSplitMode::SPLIT_TT_VER, pw, ph, ectx);
                let allow_split_tt_hor = ct.allow_split_tt(MttSplitMode::SPLIT_TT_HOR, pw, ph, ectx);
                let allow_split_qt = ct.allow_split_qt(ectx);
                self.derive_ctx_inc_using_left_and_above_ct(
                    ctx,
                    left_ct,
                    above_ct,
                    above_cu,
                    ct.x,
                    ct.y,
                    ct.cqt_depth,
                    ct.width,
                    ct.height,
                    allow_split_bt_ver,
                    allow_split_bt_hor,
                    allow_split_tt_ver,
                    allow_split_tt_hor,
                    allow_split_qt,
                    geometry,
                    ectx,
                )
            },
            _ => {
                let i = if bin_idx < 5 {
                    bin_idx
                } else {
                    5
                };
                ctx_inc_row(ctx)[i]
            },
        };
        let init_type = Self::get_init_type(slice_type, cabac_init_flag);
        crate::element_coding::context_of_inc(ctx, inc, init_type)
    }

    /// Codes coding tree syntax element `ctx` with value `val` for node `ct`: its
    /// table binarization, bin `k` with the context derived for it.
    pub fn encode_cabac_ct(
        &mut self,
        out_bins: &mut Bins,
        val: usize,
        ctx: CabacContext,
        ct: &CodingTree,
        left_ct: Option<&CodingTree>,
        above_ct: Option<&CodingTree>,
        above_cu: Option<&CodingUnit>,
        slice_type: SliceType,
        cabac_init_flag: bool,
        geometry: PictureGeometry,
        ectx: &EncoderContext,
    )
        requires
            bin_process_ok(spec_ctx_to_bin_process(ctx), val),
            bin_process_domain(spec_ctx_to_bin_process(ctx), val),
            bin_process_bits(spec_ctx_to_bin_process(ctx), val).len() <= 64,
            ct_inc_ok(*ectx, *ct, ctx, opt(left_ct), opt(above_ct), opt(above_cu), geometry),
            forall|k: usize|
                k < bin_process_bits(spec_ctx_to_bin_process(ctx), val).len() ==> #[trigger] inc_entry_ok(
                    ctx,
                    ct_inc(*ectx, *ct, k, ctx, opt(left_ct), opt(above_ct), opt(above_cu), geometry),
                    init_type_of(slice_type, cabac_init_flag),
                ),
            old(self).wf(),
            old(self).engine_ok(),
            old(out_bins).num_bins + old(self).cabac_bits_outstanding + 9 * 65 <= usize::MAX,
        ensures
            ({
                let bins = bin_process_bits(spec_ctx_to_bin_process(ctx), val);
                let it = init_type_of(slice_type, cabac_init_flag);
                coded_in(
                    *old(self),
                    *old(out_bins),
                    *final(self),
                    *final(out_bins),
                    bins,
                    Seq::new(
                        bins.len(),
                        |k: int| ctx_of_inc(ctx, ct_inc(*ectx, *ct, k as usize, ctx, opt(left_ct), opt(above_ct), opt(above_cu), geometry), it),
                    ),
                    ctx,
                    it,
                )
            }),
            final(self).wf(),
            final(self).engine_ok(),
            final(self).cabac_table_state_sync == old(self).cabac_table_state_sync,
    {
        let init_type = Self::get_init_type(slice_type, cabac_init_flag);
        let mut bins = Bins::new();
        self.binarize_cabac_ct(&mut bins, val, ctx);
        let v = bins.collect();
        let ghost gs = Seq::new(
            v@.len(),
            |k: int| ctx_of_inc(ctx, ct_inc(*ectx, *ct, k as usize, ctx, opt(left_ct), opt(above_ct), opt(above_cu), geometry), init_type),
        );
        let mut sels: Vec<(usize, bool)> = Vec::new();
        let mut i: usize = 0;
        while i < v.len()
            invariant
                i <= v@.len(),
                v@.len() <= 64,
                sels@.len() == i,
                init_type == init_type_of(slice_type, cabac_init_flag),
                ct_inc_ok(*ectx, *ct, ctx, opt(left_ct), opt(above_ct), opt(above_cu), geometry),
                gs == Seq::new(
                    v@.len(),
                    |k: int| ctx_of_inc(ctx, ct_inc(*ectx, *ct, k as usize, ctx, opt(left_ct), opt(above_ct), opt(above_cu), geometry), init_type),
                ),
                forall|k: usize|
                    k < v@.len() ==> #[trigger] inc_entry_ok(
                        ctx,
                        ct_inc(*ectx, *ct, k, ctx, opt(left_ct), opt(above_ct), opt(above_cu), geometry),
                        init_type,
                    ),
                forall|k: int| 0 <= k < i ==> #[trigger] sels@[k].0 == gs[k].0 && sels@[k].1 == gs[k].1,
            decreases v@.len() - i,
        {
            proof {
                assert(inc_entry_ok(ctx, ct_inc(*ectx, *ct, i, ctx, opt(left_ct), opt(above_ct), opt(above_cu), geometry), init_type));
            }
            let sel = self.derive_context_and_bypass_flag_ct(
                i,
                ctx,
                ct,
                left_ct,
                above_ct,
                above_cu,
                slice_type,
                cabac_init_flag,
                geometry,
                ectx,
            );
            proof {
                assert(gs[i as int] == ctx_of_inc(ctx, ct_inc(*ectx, *ct, i, ctx, opt(left_ct), opt(above_ct), opt(above_cu), geometry), init_type));
            }
            sels.push(sel);
            i += 1;
        }
        proof {
            assert forall|k: int| 0 <= k < v.len() && !gs[k].1 implies ctx_entry_ok(ctx, init_type, #[trigger] sels@[k].0) by {
                assert(inc_entry_ok(ctx, ct_inc(*ectx, *ct, k as usize, ctx, opt(left_ct), opt(above_ct), opt(above_cu), geometry), init_type));
            }
        }
        self.encode_bins_in(out_bins, &v, &sels, ctx, init_type, Ghost(gs));
    }
}

/// The log2 width and height of a block differ by more than one.
pub open spec fn elongated(w: usize, h: usize) -> bool {
    let lw = bit_length(w as nat) - 1;
    let lh = bit_length(h as nat) - 1;
    lw - lh > 1 || lh - lw > 1
}

/// The context increment of bin `bin_idx` of coding unit syntax element `ctx` of
/// `cu` in node `ct`: each element by its own rule (from the unit's flags and size,
/// the tree type, the slice's backward prediction, the recorded prediction mode),
/// the flags of the skip, prediction mode, subblock merge, affine and matrix intra
/// kind by the neighbouring units `left_cu` and `above_cu` (3 for the matrix intra
/// flag of a block elongated beyond 2:1); other elements by their table rule.
pub open spec fn cu_inc(
    e: EncoderContext,
    ct: CodingTree,
    cu: CodingUnit,
    bin_idx: usize,
    ctx: CabacContext,
    left_cu: Option<CodingUnit>,
    above_cu: Option<CodingUnit>,
    g: PictureGeometry,
) -> CtxInc {
    let (w, h) = (cu.width, cu.height);
    match ctx {
        CabacContext::IntraLumaNotPlanarFlag => CtxInc::Number(if cu.intra_subpartitions_mode_flag { 0 } else { 1 }),
        CabacContext::RegularMergeFlag => CtxInc::Number(if cu.skip_flag { 0 } else { 1 }),
        CabacContext::CuSbtFlag => if bin_idx == 0 {
            CtxInc::Number(if w * h <= 256 { 1 } else { 0 })
        } else {
            spec_ctx_inc_row(CabacContext::CuSbtFlag)[bin_idx as int]
        },
        CabacContext::CuSbtHorizontalFlag => if bin_idx == 0 {
            CtxInc::Number(if w == h { 0 } else if w < h { 1 } else { 2 })
        } else {
            spec_ctx_inc_row(CabacContext::CuSbtFlag)[bin_idx as int]
        },
        CabacContext::LfnstIdx => if bin_idx == 0 {
            CtxInc::Number(if ct.tree_type != TreeType::SINGLE_TREE { 1 } else { 0 })
        } else {
            spec_ctx_inc_row(CabacContext::LfnstIdx)[bin_idx as int]
        },
        CabacContext::BcwIdx => if e.no_backward_pred_flag && (bin_idx == 2 || bin_idx == 3) {
            CtxInc::Bypass
        } else {
            spec_ctx_inc_row(CabacContext::BcwIdx)[bin_idx as int]
        },
        CabacContext::AmvrPrecisionIdx => if bin_idx == 0 {
            CtxInc::Number(
                if e.pred_mode_at(cu.x as int, cu.y as int) == ModeType::MODE_IBC {
                    1
                } else if cu.inter_affine_flag {
                    0
                } else {
                    2
                },
            )
        } else {
            spec_ctx_inc_row(CabacContext::AmvrPrecisionIdx)[bin_idx as int]
        },
        CabacContext::InterPredIdc => if bin_idx == 0 {
            CtxInc::Number(
                if w + h > 12 {
                    (7 - (1 + bit_length((w - 1) as nat) + bit_length((h - 1) as nat)) / 2) as usize
                } else {
                    5
                },
            )
        } else {
            spec_ctx_inc_row(CabacContext::InterPredIdc)[bin_idx as int]
        },
        CabacContext::CuSkipFlag | CabacContext::PredModeFlag | CabacContext::PredModeIbcFlag
        | CabacContext::MergeSubblockFlag | CabacContext::InterAffineFlag | CabacContext::IntraMipFlag => {
            if ctx == CabacContext::IntraMipFlag && elongated(w, h) {
                CtxInc::Number(3)
            } else {
                let (available_l, available_a) = left_above_available(e, cu.x, cu.y, w, h, g);
                CtxInc::Number(cu_neighbour_ctx(ctx, available_l, available_a, left_cu, above_cu))
            }
        },
        _ => bin_rule(ctx, bin_idx as int),
    }
}

/// The context increment of bin `bin_idx` of `ctx` of `cu` can be derived: the
/// flags and sizes it reads are in range, and the neighbouring units and records it
/// reads are there.
pub open spec fn cu_inc_ok(
    e: EncoderContext,
    cu: CodingUnit,
    bin_idx: usize,
    ctx: CabacContext,
    left_cu: Option<CodingUnit>,
    above_cu: Option<CodingUnit>,
    g: PictureGeometry,
) -> bool {
    let (w, h) = (cu.width, cu.height);
    match ctx {
        CabacContext::CuSbtFlag => bin_idx < 6 && (bin_idx == 0 ==> w * h <= usize::MAX),
        CabacContext::CuSbtHorizontalFlag | CabacContext::LfnstIdx | CabacContext::BcwIdx => bin_idx < 6,
        CabacContext::AmvrPrecisionIdx => bin_idx < 6 && (bin_idx == 0 ==> e.pred_mode_ok(cu.x as int, cu.y as int)),
        CabacContext::InterPredIdc => bin_idx < 6 && (bin_idx == 0 && w + h > 12 ==> w >= 2 && h >= 2 && (1
            + bit_length((w - 1) as nat) + bit_length((h - 1) as nat)) / 2 <= 7),
        CabacContext::CuSkipFlag | CabacContext::PredModeFlag | CabacContext::PredModeIbcFlag
        | CabacContext::MergeSubblockFlag | CabacContext::InterAffineFlag | CabacContext::IntraMipFlag => {
            let (available_l, available_a) = left_above_available(e, cu.x, cu.y, w, h, g);
            &&& block_ok(e, cu.x, cu.y, w, h)
            &&& ctx == CabacContext::IntraMipFlag ==> w > 0 && h > 0
            &&& cu_neighbours_ok(ctx, available_l, available_a, left_cu, above_cu)
        },
        _ => true,
    }
}

impl BoolCoder {
    /// The context index and bypass flag of bin `bin_idx` of coding unit syntax
    /// element `ctx` of `cu` in node `ct`, whose left and above neighbours lie in the
    /// units `left_cu` and `above_cu`.
    pub fn derive_context_and_bypass_flag_cu(
        &self,
        bin_idx: usize,
        ctx: CabacContext,
        ct: &CodingTree,
        cu: &CodingUnit,
        left_cu: Option<&CodingUnit>,
        above_cu: Option<&CodingUnit>,
        slice_type: SliceType,
        cabac_init_flag: bool,
        geometry: PictureGeometry,
        ectx: &EncoderContext,
    ) -> (r: (usize, bool))
        requires
            cu_inc_ok(*ectx, *cu, bin_idx, ctx, opt(left_cu), opt(above_cu), geometry),
            inc_ok(
                ctx,
                cu_inc(*ectx, *ct, *cu, bin_idx, ctx, opt(left_cu), opt(above_cu), geometry),
                init_type_of(slice_type, cabac_init_flag),
            ),
        ensures
            ({
                let s = ctx_of_inc(
                    ctx,
                    cu_inc(*ectx, *ct, *cu, bin_idx, ctx, opt(left_cu), opt(above_cu), geometry),
                    init_type_of(slice_type, cabac_init_flag),
                );
                r.0 == s.0 && r.1 == s.1
            }),
    {
        let inc = match ctx {
            CabacContext::IntraLumaNotPlanarFlag => self.derive_ctx_inc_for_intra_luma_not_planar_flag(
                cu.intra_subpartitions_mode_flag,
            ),
            CabacContext::RegularMergeFlag => self.derive_ctx_inc_for_regular_merge_flag(cu.skip_flag),
            CabacContext::CuSbtFlag => self.derive_ctx_inc_for_cu_sbt_flag(bin_idx, cu.width, cu.height),
            CabacContext::CuSbtHorizontalFlag => self.derive_ctx_inc_for_cu_sbt_horizontal_flag(bin_idx, cu.width, cu.height),
            CabacContext::LfnstIdx => self.derive_ctx_inc_for_lfnst_idx(bin_idx, ct.tree_type),
            CabacContext::BcwIdx => self.derive_ctx_inc_for_bcw_idx(bin_idx, ectx.no_backward_pred_flag),
            CabacContext::AmvrPrecisionIdx => {
                let pred_mode = if bin_idx == 0 {
                    ectx.cu_pred_mode[0][cu.x][cu.y]
                } else {
                    ModeType::MODE_INTRA
                };
                self.derive_ctx_inc_for_amvr_precision_idx(bin_idx, cu.inter_affine_flag, pred_mode)
            },
            CabacContext::InterPredIdc => self.derive_ctx_inc_for_inter_pred_idc(bin_idx, cu.width, cu.height),
            CabacContext::CuSkipFlag | CabacContext::PredModeFlag | CabacContext::PredModeIbcFlag
            | CabacContext::MergeSubblockFlag | CabacContext::InterAffineFlag | CabacContext::IntraMipFlag => {
                let is_mip = match ctx {
                    CabacContext::IntraMipFlag => true,
                    _ => false,
                };
                if is_mip && {
                    let lw = ilog2(cu.width);
                    let lh = ilog2(cu.height);
                    (lw > lh && lw - lh > 1) || (lh > lw && lh - lw > 1)
                } {
                    CtxInc::Number(3)
                } else {
                    self.derive_ctx_inc_using_left_and_above_cu(
                        ctx,
                        left_cu,
                        above_cu,
                        cu.x,
                        cu.y,
                        cu.width,
                        cu.height,
                        geometry,
                        ectx,
                    )
                }
            },
            _ => {
                let i = if bin_idx < 5 {
                    bin_idx
                } else {
                    5
                };
                ctx_inc_row(ctx)[i]
            },
        };
        let init_type = Self::get_init_type(slice_type, cabac_init_flag);
        crate::element_coding::context_of_inc(ctx, inc, init_type)
    }
}

/// The largest matrix intra prediction mode of a `w` by `h` block: 15 for 4 by 4,
/// 7 for blocks with a side of 4 or 8 by 8, else 5.
pub open spec fn mip_mode_max(w: usize, h: usize) -> usize {
    if w == 4 && h == 4 {
        15
    } else if w == 4 || h == 4 || (w == 8 && h == 8) {
        7
    } else {
        5
    }
}

/// The largest `amvr_precision_idx` of `cu`: 2 unless affine or predicted by intra
/// block copy (by the recorded mode), then 1.
pub open spec fn amvr_max(e: EncoderContext, cu: CodingUnit) -> usize {
    if !cu.inter_affine_flag && e.pred_mode_at(cu.x as int, cu.y as int) != ModeType::MODE_IBC {
        2
    } else {
        1
    }
}

/// The number of merge candidates of `cu`: of intra block copy when predicted so
/// (by the recorded mode), else regular.
pub open spec fn merge_cands(e: EncoderContext, cu: CodingUnit) -> usize {
    if e.pred_mode_at(cu.x as int, cu.y as int) != ModeType::MODE_IBC {
        e.max_num_merge_cand
    } else {
        e.max_num_ibc_merge_cand
    }
}

/// The bins of coding unit syntax element `ctx` with value `val` for `cu`: truncated
/// binary, fixed-length, truncated Rice and Exp-Golomb codes bounded by the unit's
/// size and mode, the candidate list sizes, the reference counts and the bit depth;
/// the chroma mode, prediction direction and QP delta codes; else the table
/// binarization.
pub open spec fn cu_bin_bits(e: EncoderContext, cu: CodingUnit, ctx: CabacContext, val: usize, chroma_qp_offset_list_len: usize) -> Seq<bool> {
    match ctx {
        CabacContext::IntraMipMode => tb_bits(val as nat, mip_mode_max(cu.width, cu.height) as nat),
        CabacContext::IntraChromaPredMode => icpm_bits(val),
        CabacContext::NewPaletteEntries => fl_bits(val, (pow2(e.bit_depth as nat) - 1) as usize),
        CabacContext::InterPredIdc => ipi_bits(val, cu.width, cu.height),
        CabacContext::RefIdxL0 => tr_bits(val as nat, (e.num_ref_idx_active[0] - 1) as nat, 0),
        CabacContext::RefIdxL1 => tr_bits(val as nat, (e.num_ref_idx_active[1] - 1) as nat, 0),
        CabacContext::AmvrPrecisionIdx => tr_bits(val as nat, amvr_max(e, cu) as nat, 0),
        CabacContext::BcwIdx => tr_bits(val as nat, if e.no_backward_pred_flag { 4 } else { 2 }, 0),
        CabacContext::MergeSubblockIdx => tr_bits(val as nat, (e.max_num_subblock_merge_cand - 1) as nat, 0),
        CabacContext::MergeIdx => tr_bits(val as nat, (merge_cands(e, cu) - 1) as nat, 0),
        CabacContext::MergeGpmIdx0 => tr_bits(val as nat, (e.max_num_gpm_merge_cand - 1) as nat, 0),
        CabacContext::MergeGpmIdx1 => tr_bits(val as nat, (e.max_num_gpm_merge_cand - 2) as nat, 0),
        CabacContext::AbsMvd => legk_bits((val - 2) as nat, 1, 15, 17),
        CabacContext::CuQpDeltaAbs => cu_qp_delta_abs_bits(val as nat),
        CabacContext::CuChromaQpOffsetIdx => tr_bits(val as nat, (chroma_qp_offset_list_len - 1) as nat, 0),
        _ => bin_process_bits(spec_ctx_to_bin_process(ctx), val),
    }
}

/// `val` has a binarization as coding unit syntax element `ctx` of `cu`: within the
/// bounds its code takes, with the counts it is bounded by at least 1 (2 for the
/// second geometric merge index) and at most 64.
pub open spec fn cu_bin_ok(e: EncoderContext, cu: CodingUnit, ctx: CabacContext, val: usize, chroma_qp_offset_list_len: usize) -> bool {
    match ctx {
        CabacContext::IntraMipMode => val <= mip_mode_max(cu.width, cu.height),
        CabacContext::IntraChromaPredMode => val <= 4,
        CabacContext::NewPaletteEntries => 1 <= e.bit_depth < usize::BITS && fits(val as u64, e.bit_depth as nat),
        CabacContext::InterPredIdc => val <= 2 && cu.width + cu.height <= usize::MAX,
        CabacContext::RefIdxL0 => 1 <= e.num_ref_idx_active[0] <= 64,
        CabacContext::RefIdxL1 => 1 <= e.num_ref_idx_active[1] <= 64,
        CabacContext::AmvrPrecisionIdx => e.pred_mode_ok(cu.x as int, cu.y as int),
        CabacContext::BcwIdx => true,
        CabacContext::MergeSubblockIdx => 1 <= e.max_num_subblock_merge_cand <= 64,
        CabacContext::MergeIdx => e.pred_mode_ok(cu.x as int, cu.y as int) && 1 <= merge_cands(e, cu) <= 64,
        CabacContext::MergeGpmIdx0 => 1 <= e.max_num_gpm_merge_cand <= 64,
        CabacContext::MergeGpmIdx1 => 2 <= e.max_num_gpm_merge_cand <= 64,
        CabacContext::AbsMvd => val >= 2,
        CabacContext::CuQpDeltaAbs => true,
        CabacContext::CuChromaQpOffsetIdx => 1 <= chroma_qp_offset_list_len <= 64,
        _ => bin_process_ok(spec_ctx_to_bin_process(ctx), val) && bin_process_domain(spec_ctx_to_bin_process(ctx), val),
    }
}

impl BoolCoder {
    /// Appends the binarization of coding unit syntax element `ctx` with value `val`
    /// for `cu`.
    pub fn binarize_cabac_cu(
        &mut self,
        out_bins: &mut Bins,
        val: usize,
        ctx: CabacContext,
        cu: &CodingUnit,
        chroma_qp_offset_list_len: usize,
        ectx: &EncoderContext,
    )
        requires
            cu_bin_ok(*ectx, *cu, ctx, val, chroma_qp_offset_list_len),
            old(out_bins).num_bins + 256 <= usize::MAX,
        ensures
            appended(*old(out_bins), *final(out_bins), cu_bin_bits(*ectx, *cu, ctx, val, chroma_qp_offset_list_len)),
            *final(self) == *old(self),
    {
        proof {
            vstd::arithmetic::power2::lemma2_to64();
        }
        match ctx {
            CabacContext::IntraMipMode => {
                let c_max: usize = if cu.width == 4 && cu.height == 4 {
                    15
                } else if cu.width == 4 || cu.height == 4 || (cu.width == 8 && cu.height == 8) {
                    7
                } else {
                    5
                };
                proof {
                    assert(bit_length(16) == 5 && bit_length(8) == 4 && bit_length(6) == 3) by {
                        reveal_with_fuel(bit_length, 6);
                    }
                }
                self.encode_trancated_binary(out_bins, val, c_max)
            },
            CabacContext::IntraChromaPredMode => self.encode_intra_chroma_pred_mode(out_bins, val),
            CabacContext::NewPaletteEntries => {
                proof {
                    crate::bits::lemma_usize_shl_one(ectx.bit_depth);
                    crate::bits::lemma_bit_length_mask(ectx.bit_depth as nat);
                }
                let c_max = (1usize << ectx.bit_depth) - 1;
                self.encode_fixed_length(out_bins, val, c_max)
            },
            CabacContext::InterPredIdc => self.encode_inter_pred_idc(out_bins, val, cu.width, cu.height),
            CabacContext::RefIdxL0 => {
                let c_max = ectx.num_ref_idx_active[0] - 1;
                self.encode_trancated_rice(out_bins, val, c_max, 0)
            },
            CabacContext::RefIdxL1 => {
                let c_max = ectx.num_ref_idx_active[1] - 1;
                self.encode_trancated_rice(out_bins, val, c_max, 0)
            },
            CabacContext::AmvrPrecisionIdx => {
                let c_max: usize = if !cu.inter_affine_flag && ectx.cu_pred_mode[0][cu.x][cu.y] != ModeType::MODE_IBC {
                    2
                } else {
                    1
                };
                self.encode_trancated_rice(out_bins, val, c_max, 0)
            },
            CabacContext::BcwIdx => {
                let c_max: usize = if ectx.no_backward_pred_flag {
                    4
                } else {
                    2
                };
                self.encode_trancated_rice(out_bins, val, c_max, 0)
            },
            CabacContext::MergeSubblockIdx => {
                let c_max = ectx.max_num_subblock_merge_cand - 1;
                self.encode_trancated_rice(out_bins, val, c_max, 0)
            },
            CabacContext::MergeIdx => {
                let c_max = (if ectx.cu_pred_mode[0][cu.x][cu.y] != ModeType::MODE_IBC {
                    ectx.max_num_merge_cand
                } else {
                    ectx.max_num_ibc_merge_cand
                }) - 1;
                self.encode_trancated_rice(out_bins, val, c_max, 0)
            },
            CabacContext::MergeGpmIdx0 => {
                let c_max = ectx.max_num_gpm_merge_cand - 1;
                self.encode_trancated_rice(out_bins, val, c_max, 0)
            },
            CabacContext::MergeGpmIdx1 => {
                let c_max = ectx.max_num_gpm_merge_cand - 2;
                self.encode_trancated_rice(out_bins, val, c_max, 0)
            },
            CabacContext::AbsMvd => self.encode_abs_mvd_minus2(out_bins, val),
            CabacContext::CuQpDeltaAbs => self.encode_cu_qp_delta_abs(out_bins, val),
            CabacContext::CuChromaQpOffsetIdx => {
                let c_max = chroma_qp_offset_list_len - 1;
                self.encode_trancated_rice(out_bins, val, c_max, 0)
            },
            _ => self.binarize_cabac_ct(out_bins, val, ctx),
        }
    }

    /// Codes coding unit syntax element `ctx` with value `val` for `cu` in node `ct`:
    /// its binarization, bin `k` with the context derived for it.
    pub fn encode_cabac_cu(
        &mut self,
        out_bins: &mut Bins,
        val: usize,
        ctx: CabacContext,
        ct: &CodingTree,
        cu: &CodingUnit,
        left_cu: Option<&CodingUnit>,
        above_cu: Option<&CodingUnit>,
        slice_type: SliceType,
        cabac_init_flag: bool,
        geometry: PictureGeometry,
        chroma_qp_offset_list_len: usize,
        ectx: &EncoderContext,
    )
        requires
            cu_bin_ok(*ectx, *cu, ctx, val, chroma_qp_offset_list_len),
            cu_bin_bits(*ectx, *cu, ctx, val, chroma_qp_offset_list_len).len() <= 64,
            forall|k: usize|
                k < cu_bin_bits(*ectx, *cu, ctx, val, chroma_qp_offset_list_len).len() ==> #[trigger] cu_inc_ok(
                    *ectx,
                    *cu,
                    k,
                    ctx,
                    opt(left_cu),
                    opt(above_cu),
                    geometry,
                ) && inc_entry_ok(
                    ctx,
                    cu_inc(*ectx, *ct, *cu, k, ctx, opt(left_cu), opt(above_cu), geometry),
                    init_type_of(slice_type, cabac_init_flag),
                ),
            old(self).wf(),
            old(self).engine_ok(),
            old(out_bins).num_bins + old(self).cabac_bits_outstanding + 9 * 65 <= usize::MAX,
        ensures
            ({
                let bins = cu_bin_bits(*ectx, *cu, ctx, val, chroma_qp_offset_list_len);
                let it = init_type_of(slice_type, cabac_init_flag);
                coded_in(
                    *old(self),
                    *old(out_bins),
                    *final(self),
                    *final(out_bins),
                    bins,
                    Seq::new(
                        bins.len(),
                        |k: int| ctx_of_inc(ctx, cu_inc(*ectx, *ct, *cu, k as usize, ctx, opt(left_cu), opt(above_cu), geometry), it),
                    ),
                    ctx,
                    it,
                )
            }),
            final(self).wf(),
            final(self).engine_ok(),
            final(self).cabac_table_state_sync == old(self).cabac_table_state_sync,
            final(out_bins).num_bins + final(self).cabac_bits_outstanding <= old(out_bins).num_bins
                + old(self).cabac_bits_outstanding + 9 * 64,
    {
        let init_type = Self::get_init_type(slice_type, cabac_init_flag);
        let mut bins = Bins::new();
        self.binarize_cabac_cu(&mut bins, val, ctx, cu, chroma_qp_offset_list_len, ectx);
        let v = bins.collect();
        let ghost gs = Seq::new(
            v@.len(),
            |k: int| ctx_of_inc(ctx, cu_inc(*ectx, *ct, *cu, k as usize, ctx, opt(left_cu), opt(above_cu), geometry), init_type),
        );
        let mut sels: Vec<(usize, bool)> = Vec::new();
        let mut i: usize = 0;
        while i < v.len()
            invariant
                i <= v@.len(),
                v@.len() <= 64,
                sels@.len() == i,
                init_type == init_type_of(slice_type, cabac_init_flag),
                gs == Seq::new(
                    v@.len(),
                    |k: int| ctx_of_inc(ctx, cu_inc(*ectx, *ct, *cu, k as usize, ctx, opt(left_cu), opt(above_cu), geometry), init_type),
                ),
                forall|k: usize|
                    k < v@.len() ==> #[trigger] cu_inc_ok(*ectx, *cu, k, ctx, opt(left_cu), opt(above_cu), geometry)
                        && inc_entry_ok(ctx, cu_inc(*ectx, *ct, *cu, k, ctx, opt(left_cu), opt(above_cu), geometry), init_type),
                forall|k: int| 0 <= k < i ==> #[trigger] sels@[k].0 == gs[k].0 && sels@[k].1 == gs[k].1,
            decreases v@.len() - i,
        {
            proof {
                assert(cu_inc_ok(*ectx, *cu, i, ctx, opt(left_cu), opt(above_cu), geometry));
            }
            let sel = self.derive_context_and_bypass_flag_cu(
                i,
                ctx,
                ct,
                cu,
                left_cu,
                above_cu,
                slice_type,
                cabac_init_flag,
                geometry,
                ectx,
            );
            proof {
                assert(gs[i as int] == ctx_of_inc(ctx, cu_inc(*ectx, *ct, *cu, i, ctx, opt(left_cu), opt(above_cu), geometry), init_type));
            }
            sels.push(sel);
            i += 1;
        }
        proof {
            assert forall|k: int| 0 <= k < v.len() && !gs[k].1 implies ctx_entry_ok(ctx, init_type, #[trigger] sels@[k].0) by {
                assert(cu_inc_ok(*ectx, *cu, k as usize, ctx, opt(left_cu), opt(above_cu), geometry));
            }
        }
        self.encode_bins_in(out_bins, &v, &sels, ctx, init_type, Ghost(gs));
    }
}

} // verus!
