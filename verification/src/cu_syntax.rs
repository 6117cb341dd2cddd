//! The `coding_unit` syntax: which elements a coding unit carries, in order, and
//! their coding.
use crate::bins::Bins;
use crate::cabac_contexts::CabacContext;
use crate::common::{IntraPredMode, IntraSubpartitionsSplitType, ModeType, SliceType, TreeType};
use crate::ctu::{luma_mode_ok, mpm_syntax, neighbour_cand_mode, CodingUnit, MvdCoding};
use crate::ctu_encoder::{cu_element_ok, elements_coded, flag, mvd_element_list, mvd_elements, CtuEncoder, CuScope};
use crate::encoder_context::EncoderContext;
use vstd::prelude::*;

verus! {

/// The sequence, picture and encoder parameters that decide which coding unit
/// syntax elements are present: the tools the sequence enables, whether it has
/// chroma, the picture's motion vector and weighted prediction settings, and the
/// encoder's sizes and state. The last four flags are the transform state left by
/// coding the unit's transform tree; `first_tu_coded` and `first_tu_transform_skip`
/// are the coded and transform skip flags of its first transform unit, by
/// component.
pub struct CuParams {
    pub ibc_enabled_flag: bool,
    pub palette_enabled_flag: bool,
    pub act_enabled_flag: bool,
    pub bdpcm_enabled_flag: bool,
    pub mip_enabled_flag: bool,
    pub mrl_enabled_flag: bool,
    pub isp_enabled_flag: bool,
    pub chroma_present: bool,
    pub cclm_enabled_flag: bool,
    pub qtbtt_dual_tree_intra_flag: bool,
    pub affine_enabled_flag: bool,
    pub six_param_affine_enabled_flag: bool,
    pub smvd_enabled_flag: bool,
    pub amvr_enabled_flag: bool,
    pub affine_amvr_enabled_flag: bool,
    pub bcw_enabled_flag: bool,
    pub sbt_enabled_flag: bool,
    pub lfnst_enabled_flag: bool,
    pub mvd_l1_zero_flag: bool,
    pub luma_weight_l0_flag: Vec<bool>,
    pub luma_weight_l1_flag: Vec<bool>,
    pub chroma_weight_l0_flag: Vec<bool>,
    pub chroma_weight_l1_flag: Vec<bool>,
    pub max_ts_size: usize,
    pub ctb_size_y: usize,
    pub log2_ctb_size: usize,
    pub max_tb_size_y: usize,
    pub min_tb_size_y: usize,
    pub motion_model_idc: usize,
    pub ref_idx_sym_l0: isize,
    pub ref_idx_sym_l1: isize,
    pub isp_split_type: IntraSubpartitionsSplitType,
    pub num_intra_subpartitions: usize,
    pub intra_mip_flag_at: bool,
    pub first_tu_coded: [bool; 3],
    pub first_tu_transform_skip: [bool; 3],
    pub lfnst_dc_only: bool,
    pub lfnst_zero_out_sig_coeff_flag: bool,
    pub mts_dc_only: bool,
    pub mts_zero_out_sig_coeff_flag: bool,
}

/// The motion vector differences the encoder keeps between units: of list 0 and
/// list 1, and of the affine control points of both lists.
pub struct MvdState {
    pub mvd_l0: (isize, isize),
    pub mvd_l1: (isize, isize),
    pub mvd_cp_l0: [(isize, isize); 3],
    pub mvd_cp_l1: [(isize, isize); 3],
}

/// Element `ctx` with value `val` when `cond` holds, else nothing.
#[verifier::opaque]
pub open spec fn opt_el(cond: bool, ctx: CabacContext, val: usize) -> Seq<(CabacContext, usize)> {
    if cond { seq![(ctx, val)] } else { Seq::empty() }
}

/// The channel the unit's prediction mode is read from: chroma for a chroma tree.
pub open spec fn ch_of(cu: CodingUnit) -> int {
    if cu.tree_type == TreeType::DUAL_TREE_CHROMA { 1 } else { 0 }
}

/// The prediction mode of the unit in its channel.
pub open spec fn pm_of(cu: CodingUnit) -> ModeType {
    cu.pred_mode[ch_of(cu)]
}

/// The skip, prediction mode and block copy flags.
#[verifier::opaque]
pub open spec fn cu_head_elements(s: CuScope, p: CuParams) -> Seq<(CabacContext, usize)> {
    let cu = s.cu;
    let sq4 = cu.width == 4 && cu.height == 4;
    let w64 = cu.width <= 64 && cu.height <= 64;
    if s.slice_type != SliceType::I || p.ibc_enabled_flag {
        opt_el(
            cu.tree_type != TreeType::DUAL_TREE_CHROMA && ((!sq4 && cu.mode_type != ModeType::MODE_TYPE_INTRA) || (p.ibc_enabled_flag && w64)),
            CabacContext::CuSkipFlag,
            flag(cu.skip_flag),
        ) + opt_el(
            !cu.skip_flag && s.slice_type != SliceType::I && !sq4 && cu.mode_type == ModeType::MODE_TYPE_ALL,
            CabacContext::PredModeFlag,
            flag(cu.pred_mode_flag),
        ) + opt_el(
            ((s.slice_type == SliceType::I && !cu.skip_flag) || (s.slice_type != SliceType::I && pm_of(cu) != ModeType::MODE_INTRA
                && !cu.skip_flag)) && w64 && cu.mode_type != ModeType::MODE_TYPE_INTER && p.ibc_enabled_flag && cu.tree_type
                != TreeType::DUAL_TREE_CHROMA,
            CabacContext::PredModeIbcFlag,
            flag(cu.pred_mode_ibc_flag),
        )
    } else {
        Seq::empty()
    }
}

/// The palette flag is present.
pub open spec fn plt_coded(s: CuScope, p: CuParams, e: EncoderContext) -> bool {
    let cu = s.cu;
    &&& pm_of(cu) == ModeType::MODE_INTRA
    &&& p.palette_enabled_flag
    &&& cu.width <= 64 && cu.height <= 64
    &&& !cu.skip_flag
    &&& cu.mode_type != ModeType::MODE_TYPE_INTER
    &&& cu.width * cu.height > (if cu.tree_type != TreeType::DUAL_TREE_CHROMA { 16 } else { 16 * e.sub_width_c * e.sub_height_c })
    &&& (cu.mode_type != ModeType::MODE_TYPE_INTRA || cu.tree_type != TreeType::DUAL_TREE_CHROMA)
}

/// The most probable mode syntax of the unit's luma mode: the flag, the index and
/// the remainder.
#[verifier::opaque]
pub open spec fn cu_mpm(s: CuScope, p: CuParams) -> (bool, usize, usize) {
    let cu = s.cu;
    let left = neighbour_cand_mode(s.left_cu);
    let above = if cu.y <= ((cu.y >> p.log2_ctb_size) << p.log2_ctb_size) {
        0
    } else {
        neighbour_cand_mode(s.above_cu)
    };
    mpm_syntax(cu.intra_pred_mode[0].spec_value(), left, above)
}

/// The luma mode elements of a unit predicted by angle: the reference line, the
/// sub-partition flags and the most probable mode syntax.
#[verifier::opaque]
pub open spec fn cu_luma_angular_elements(s: CuScope, p: CuParams) -> Seq<(CabacContext, usize)> {
    let cu = s.cu;
    let (f, idx, rem) = cu_mpm(s, p);
    let np = cu.intra_pred_mode[0] != IntraPredMode::PLANAR;
    opt_el(p.mrl_enabled_flag && cu.y % p.ctb_size_y > 0, CabacContext::IntraLumaRefIdx, cu.intra_luma_ref_idx) + opt_el(
        p.isp_enabled_flag && cu.intra_luma_ref_idx == 0 && cu.width <= p.max_tb_size_y && cu.height <= p.max_tb_size_y
            && cu.width * cu.height > p.min_tb_size_y * p.min_tb_size_y && !cu.act_enabled_flag,
        CabacContext::IntraSubpartitionsModeFlag,
        flag(cu.intra_subpartitions_mode_flag),
    ) + opt_el(cu.intra_subpartitions_mode_flag, CabacContext::IntraSubpartitionsSplitFlag, flag(cu.intra_subpartitions_split_flag))
        + opt_el(cu.intra_luma_ref_idx == 0, CabacContext::IntraLumaMpmFlag, flag(f)) + (if f {
        opt_el(cu.intra_luma_ref_idx == 0, CabacContext::IntraLumaNotPlanarFlag, flag(np)) + opt_el(np, CabacContext::IntraLumaMpmIdx, idx)
    } else {
        seq![(CabacContext::IntraLumaMpmRemainder, rem)]
    })
}

/// The luma intra elements: block-based delta coding, matrix intra prediction or
/// the angular mode.
#[verifier::opaque]
pub open spec fn cu_luma_intra_elements(s: CuScope, p: CuParams) -> Seq<(CabacContext, usize)> {
    let cu = s.cu;
    if (cu.tree_type == TreeType::SINGLE_TREE || cu.tree_type == TreeType::DUAL_TREE_LUMA) && !cu.pred_mode_plt_flag {
        opt_el(
            p.bdpcm_enabled_flag && cu.width <= p.max_ts_size && cu.height <= p.max_ts_size,
            CabacContext::IntraBdpcmLumaFlag,
            flag(cu.intra_bdpcm_luma_flag),
        ) + (if cu.intra_bdpcm_luma_flag {
            seq![(CabacContext::IntraBdpcmLumaDirFlag, flag(cu.intra_bdpcm_luma_dir_flag))]
        } else {
            opt_el(p.mip_enabled_flag, CabacContext::IntraMipFlag, flag(cu.intra_mip_flag)) + (if cu.intra_mip_flag {
                seq![
                    (CabacContext::IntraMipTransposedFlag, flag(cu.intra_mip_transposed_flag)),
                    (CabacContext::IntraMipMode, cu.intra_mip_mode),
                ]
            } else {
                cu_luma_angular_elements(s, p)
            })
        })
    } else {
        Seq::empty()
    }
}

/// The chroma intra elements: block-based delta coding, the cross-component mode
/// or the chroma mode.
#[verifier::opaque]
pub open spec fn cu_chroma_intra_elements(s: CuScope, p: CuParams, e: EncoderContext) -> Seq<(CabacContext, usize)> {
    let cu = s.cu;
    if (cu.tree_type == TreeType::SINGLE_TREE || cu.tree_type == TreeType::DUAL_TREE_CHROMA) && p.chroma_present
        && !cu.pred_mode_plt_flag && !cu.act_enabled_flag {
        opt_el(
            cu.width / e.sub_width_c <= p.max_ts_size && cu.height / e.sub_height_c <= p.max_ts_size && p.bdpcm_enabled_flag,
            CabacContext::IntraBdpcmChromaFlag,
            flag(cu.intra_bdpcm_chroma_flag),
        ) + (if cu.intra_bdpcm_chroma_flag {
            seq![(CabacContext::IntraBdpcmChromaDirFlag, flag(cu.intra_bdpcm_chroma_dir_flag))]
        } else {
            opt_el(p.cclm_enabled_flag, CabacContext::CclmModeFlag, flag(cu.spec_cclm_mode_flag())) + (if cu.spec_cclm_mode_flag() {
                seq![(CabacContext::CclmModeIdx, cu.spec_cclm_mode_idx())]
            } else {
                seq![(CabacContext::IntraChromaPredMode, cu.intra_chroma_pred_mode)]
            })
        })
    } else {
        Seq::empty()
    }
}

/// A motion vector difference is not zero.
pub open spec fn mv_nonzero(m: (isize, isize)) -> bool {
    m.0 != 0 || m.1 != 0
}

/// One of three control point differences is not zero.
pub open spec fn cp_nonzero(a: [(isize, isize); 3]) -> bool {
    mv_nonzero(a[0]) || mv_nonzero(a[1]) || mv_nonzero(a[2])
}

/// The unit takes the inter branch with its own motion (neither merged nor block
/// copy).
pub open spec fn inter_mv_branch(s: CuScope) -> bool {
    let cu = s.cu;
    &&& pm_of(cu) != ModeType::MODE_INTRA && pm_of(cu) != ModeType::MODE_PLT
    &&& cu.tree_type != TreeType::DUAL_TREE_CHROMA
    &&& !cu.general_merge_flag
    &&& pm_of(cu) != ModeType::MODE_IBC
}

/// The list 1 difference is set rather than coded: zero for bi-prediction with
/// list 1 differences off.
pub open spec fn l1_zeroed(s: CuScope, p: CuParams) -> bool {
    p.mvd_l1_zero_flag && s.cu.inter_pred_idc == 2
}

/// The motion vector difference state after the unit.
#[verifier::opaque]
pub open spec fn mvd_state_after(s: CuScope, p: CuParams, st: MvdState) -> MvdState {
    let cu = s.cu;
    if inter_mv_branch(s) {
        let l0 = if cu.inter_pred_idc == 1 { (0isize, 0isize) } else { st.mvd_l0 };
        let l1 = if cu.inter_pred_idc == 0 {
            (0isize, 0isize)
        } else if l1_zeroed(s, p) {
            (0isize, 0isize)
        } else if cu.sym_mvd_flag {
            ((-l0.0) as isize, (-l0.1) as isize)
        } else {
            st.mvd_l1
        };
        let cp1 = if cu.inter_pred_idc != 0 && l1_zeroed(s, p) { [(0isize, 0isize), (0isize, 0isize), (0isize, 0isize)] } else { st.mvd_cp_l1 };
        MvdState { mvd_l0: l0, mvd_l1: l1, mvd_cp_l0: st.mvd_cp_l0, mvd_cp_l1: cp1 }
    } else {
        st
    }
}

/// The control point differences of list `l` in use.
pub open spec fn mvd_cps(cu: CodingUnit, l: int, mmi: usize) -> Seq<(CabacContext, usize)> {
    (if mmi > 0 { mvd_elements(cu.mvd_coding@[l]@[1]) } else { Seq::empty() }) + (if mmi > 1 {
        mvd_elements(cu.mvd_coding@[l]@[2])
    } else {
        Seq::empty()
    })
}

/// The amvr flag is present.
#[verifier::opaque]
pub open spec fn amvr_coded(s: CuScope, p: CuParams, st: MvdState) -> bool {
    let cu = s.cu;
    let n = mvd_state_after(s, p, st);
    (p.amvr_enabled_flag && !cu.inter_affine_flag && (mv_nonzero(n.mvd_l0) || mv_nonzero(n.mvd_l1))) || (
    p.affine_amvr_enabled_flag && cu.inter_affine_flag && (cp_nonzero(n.mvd_cp_l0) || cp_nonzero(n.mvd_cp_l1)))
}

/// The bi-prediction weight index is present.
#[verifier::opaque]
pub open spec fn bcw_coded(s: CuScope, p: CuParams) -> bool {
    let cu = s.cu;
    &&& p.bcw_enabled_flag
    &&& cu.inter_pred_idc == 2
    &&& !p.luma_weight_l0_flag@[cu.ref_idx[0] as int]
    &&& !p.luma_weight_l1_flag@[cu.ref_idx[1] as int]
    &&& !p.chroma_weight_l0_flag@[cu.ref_idx[0] as int]
    &&& !p.chroma_weight_l1_flag@[cu.ref_idx[1] as int]
    &&& cu.width * cu.height >= 256
}

/// The elements of a unit with its own motion: prediction direction, affine
/// model, symmetric differences, then per list the reference index, the
/// differences and the predictor flag, then the motion vector resolution and the
/// bi-prediction weight.
#[verifier::opaque]
pub open spec fn cu_inter_mv_elements(s: CuScope, p: CuParams, e: EncoderContext, st: MvdState) -> Seq<(CabacContext, usize)> {
    inter_prefix_elements(s, p) + inter_l0_elements(s, p, e) + inter_l1_elements(s, p, e) + inter_tail_elements(s, p, st)
}

/// The prediction direction, the affine model and the symmetric difference flag.
#[verifier::opaque]
pub open spec fn inter_prefix_elements(s: CuScope, p: CuParams) -> Seq<(CabacContext, usize)> {
    let cu = s.cu;
    let ipi = cu.inter_pred_idc;
    let af = cu.inter_affine_flag;
    opt_el(s.slice_type == SliceType::B, CabacContext::InterPredIdc, ipi) + (if p.affine_enabled_flag && cu.width >= 16
        && cu.height >= 16 {
        seq![(CabacContext::InterAffineFlag, flag(af))] + opt_el(p.six_param_affine_enabled_flag && af, CabacContext::CuAffineTypeFlag, flag(cu.affine_type_flag))
    } else {
        Seq::empty()
    }) + opt_el(
        p.smvd_enabled_flag && !p.mvd_l1_zero_flag && ipi == 2 && !af && p.ref_idx_sym_l0 > -1 && p.ref_idx_sym_l1 > -1,
        CabacContext::SymMvdFlag,
        flag(cu.sym_mvd_flag),
    )
}

/// The list 0 reference index, differences and predictor flag.
#[verifier::opaque]
pub open spec fn inter_l0_elements(s: CuScope, p: CuParams, e: EncoderContext) -> Seq<(CabacContext, usize)> {
    let cu = s.cu;
    if cu.inter_pred_idc != 1 {
        opt_el(e.num_ref_idx_active[0] > 1 && !cu.sym_mvd_flag, CabacContext::RefIdxL0, cu.ref_idx[0]) + mvd_elements(cu.mvd_coding@[0]@[0])
            + mvd_cps(cu, 0, p.motion_model_idc) + seq![(CabacContext::MvpL0Flag, flag(cu.mvp_l0_flag))]
    } else {
        Seq::empty()
    }
}

/// The list 1 reference index, differences (none when set rather than coded, the
/// first none when symmetric) and predictor flag.
#[verifier::opaque]
pub open spec fn inter_l1_elements(s: CuScope, p: CuParams, e: EncoderContext) -> Seq<(CabacContext, usize)> {
    let cu = s.cu;
    if cu.inter_pred_idc != 0 {
        opt_el(e.num_ref_idx_active[1] > 1 && !cu.sym_mvd_flag, CabacContext::RefIdxL1, cu.ref_idx[1]) + (if l1_zeroed(s, p) {
            Seq::empty()
        } else {
            (if cu.sym_mvd_flag { Seq::empty() } else { mvd_elements(cu.mvd_coding@[1]@[0]) }) + mvd_cps(cu, 1, p.motion_model_idc)
        }) + seq![(CabacContext::MvpL1Flag, flag(cu.mvp_l1_flag))]
    } else {
        Seq::empty()
    }
}

/// The motion vector resolution and the bi-prediction weight.
#[verifier::opaque]
pub open spec fn inter_tail_elements(s: CuScope, p: CuParams, st: MvdState) -> Seq<(CabacContext, usize)> {
    let cu = s.cu;
    (if amvr_coded(s, p, st) {
        seq![(CabacContext::AmvrFlag, flag(cu.amvr_flag))] + opt_el(cu.amvr_flag, CabacContext::AmvrPrecisionIdx, cu.amvr_precision_idx)
    } else {
        Seq::empty()
    }) + opt_el(bcw_coded(s, p), CabacContext::BcwIdx, cu.bcw_idx)
}

/// The inter elements: the merge flag of a skipped unit, then for a unit that is
/// not merged its block vector or its motion.
#[verifier::opaque]
pub open spec fn cu_inter_elements(s: CuScope, p: CuParams, e: EncoderContext, st: MvdState) -> Seq<(CabacContext, usize)> {
    let cu = s.cu;
    opt_el(cu.skip_flag, CabacContext::GeneralMergeFlag, flag(cu.general_merge_flag)) + (if cu.general_merge_flag {
        Seq::empty()
    } else if pm_of(cu) == ModeType::MODE_IBC {
        mvd_elements(cu.mvd_coding@[0]@[0]) + opt_el(e.max_num_ibc_merge_cand > 1, CabacContext::MvpL0Flag, flag(cu.mvp_l0_flag))
            + opt_el(p.amvr_enabled_flag && mv_nonzero(st.mvd_l0), CabacContext::AmvrPrecisionIdx, cu.amvr_precision_idx)
    } else {
        cu_inter_mv_elements(s, p, e, st)
    })
}

/// The subblock transform elements.
#[verifier::opaque]
pub open spec fn cu_sbt_elements(s: CuScope, p: CuParams) -> Seq<(CabacContext, usize)> {
    let cu = s.cu;
    let vh = cu.width >= 8;
    let vq = cu.width >= 16;
    let hh = cu.height >= 8;
    let hq = cu.height >= 16;
    if pm_of(cu) == ModeType::MODE_INTRA && p.sbt_enabled_flag && !cu.merge_data.unwrap().ciip_flag && cu.width
        <= p.max_tb_size_y && cu.height <= p.max_tb_size_y {
        opt_el(vh || hh, CabacContext::CuSbtFlag, flag(cu.sbt_flag)) + (if cu.sbt_flag {
            opt_el((vh || hh) && (vq || hq), CabacContext::CuSbtQuadFlag, flag(cu.sbt_quad_flag)) + opt_el(
                (cu.sbt_quad_flag && vq && hq) || (!cu.sbt_quad_flag && vh && hh),
                CabacContext::CuSbtHorizontalFlag,
                flag(cu.sbt_horizontal_flag),
            ) + seq![(CabacContext::CuSbtPosFlag, flag(cu.sbt_pos_flag))]
        } else {
            Seq::empty()
        })
    } else {
        Seq::empty()
    }
}

/// The width and height the low-frequency secondary transform sees.
pub open spec fn lfnst_size(s: CuScope, p: CuParams, e: EncoderContext) -> (int, int) {
    let cu = s.cu;
    if cu.tree_type == TreeType::DUAL_TREE_CHROMA {
        ((cu.width / e.sub_width_c) as int, (cu.height / e.sub_height_c) as int)
    } else if p.isp_split_type == IntraSubpartitionsSplitType::ISP_VER_SPLIT {
        ((cu.width / p.num_intra_subpartitions) as int, (cu.height / p.num_intra_subpartitions) as int)
    } else {
        (cu.width as int, cu.height as int)
    }
}

/// No coded component of the first transform unit skips its transform.
pub open spec fn lfnst_not_ts(s: CuScope, p: CuParams) -> bool {
    let t = s.cu.tree_type;
    (t == TreeType::DUAL_TREE_CHROMA || !p.first_tu_coded[0] || !p.first_tu_transform_skip[0]) && (t == TreeType::DUAL_TREE_LUMA
        || ((!p.first_tu_coded[1] || !p.first_tu_transform_skip[1]) && (!p.first_tu_coded[2] || !p.first_tu_transform_skip[2])))
}

/// The transform elements that follow the transform tree: the secondary transform
/// index and the transform selection.
#[verifier::opaque]
pub open spec fn cu_transform_index_elements(s: CuScope, p: CuParams, e: EncoderContext) -> Seq<(CabacContext, usize)> {
    let cu = s.cu;
    let (lw, lh) = lfnst_size(s, p, e);
    let m = if lw <= lh { lw } else { lh };
    let big = if cu.width >= cu.height { cu.width } else { cu.height };
    opt_el(
        m >= 4 && p.lfnst_enabled_flag && pm_of(cu) == ModeType::MODE_INTRA && lfnst_not_ts(s, p) && (cu.tree_type
            == TreeType::DUAL_TREE_CHROMA || !p.intra_mip_flag_at || m >= 16) && big <= p.max_tb_size_y && (p.isp_split_type
            != IntraSubpartitionsSplitType::ISP_NO_SPLIT || !p.lfnst_dc_only) && p.lfnst_zero_out_sig_coeff_flag,
        CabacContext::LfnstIdx,
        cu.lfnst_idx,
    ) + opt_el(
        cu.tree_type != TreeType::DUAL_TREE_CHROMA && cu.lfnst_idx == 0 && !p.first_tu_transform_skip[0] && big <= 32
            && p.isp_split_type == IntraSubpartitionsSplitType::ISP_NO_SPLIT && !cu.sbt_flag && p.mts_zero_out_sig_coeff_flag
            && !p.mts_dc_only,
        CabacContext::MtsIdx,
        cu.mts_idx,
    )
}

/// The `coding_unit` syntax of the unit in scope `s`, without its transform tree:
/// the skip, prediction mode, block copy and palette flags, the colour transform
/// flag, then the intra modes (luma and chroma) or the inter syntax, the coded
/// flag, and for a coded unit the subblock transform, the colour transform of an
/// inter unit and the transform indices.
#[verifier::opaque]
pub open spec fn cu_elements(s: CuScope, p: CuParams, e: EncoderContext, st: MvdState) -> Seq<(CabacContext, usize)> {
    cu_prefix_elements(s, p, e) + cu_mode_elements(s, p, e, st) + cu_suffix_elements(s, p, e)
}

/// The skip, prediction mode, block copy and palette flags and the colour
/// transform flag of an intra unit.
#[verifier::opaque]
pub open spec fn cu_prefix_elements(s: CuScope, p: CuParams, e: EncoderContext) -> Seq<(CabacContext, usize)> {
    let cu = s.cu;
    cu_head_elements(s, p) + opt_el(plt_coded(s, p, e), CabacContext::PredModePltFlag, flag(cu.pred_mode_plt_flag)) + opt_el(
        pm_of(cu) == ModeType::MODE_INTRA && p.act_enabled_flag && cu.tree_type == TreeType::SINGLE_TREE,
        CabacContext::CuActEnabledFlag,
        flag(cu.act_enabled_flag),
    )
}

/// The intra modes (luma and chroma) or the inter syntax.
#[verifier::opaque]
pub open spec fn cu_mode_elements(s: CuScope, p: CuParams, e: EncoderContext, st: MvdState) -> Seq<(CabacContext, usize)> {
    let cu = s.cu;
    let pm = pm_of(cu);
    if pm == ModeType::MODE_INTRA || pm == ModeType::MODE_PLT {
        cu_luma_intra_elements(s, p) + cu_chroma_intra_elements(s, p, e)
    } else if cu.tree_type != TreeType::DUAL_TREE_CHROMA {
        cu_inter_elements(s, p, e, st)
    } else {
        Seq::empty()
    }
}

/// The coded flag, and for a coded unit the subblock transform, the colour
/// transform of an inter unit and the transform indices.
#[verifier::opaque]
pub open spec fn cu_suffix_elements(s: CuScope, p: CuParams, e: EncoderContext) -> Seq<(CabacContext, usize)> {
    let cu = s.cu;
    let pm = pm_of(cu);
    opt_el(pm != ModeType::MODE_INTRA && !cu.pred_mode_plt_flag && !cu.general_merge_flag, CabacContext::CuCodedFlag, flag(cu.coded_flag))
        + (if cu.coded_flag {
        cu_sbt_elements(s, p) + opt_el(
            p.act_enabled_flag && pm != ModeType::MODE_INTRA && cu.tree_type == TreeType::SINGLE_TREE,
            CabacContext::CuActEnabledFlag,
            flag(cu.act_enabled_flag),
        ) + cu_transform_index_elements(s, p, e)
    } else {
        Seq::empty()
    })
}

/// A motion vector difference whose "greater than 1" components have an absolute
/// value of at least 2.
pub open spec fn mvd_ok(m: MvdCoding) -> bool {
    &&& m.abs_mvd_greater0_flag[0] && m.abs_mvd_greater1_flag[0] ==> m.abs_mvd[0] >= 2
    &&& m.abs_mvd_greater0_flag[1] && m.abs_mvd_greater1_flag[1] ==> m.abs_mvd[1] >= 2
}

/// Difference `j` of list `l` exists and can be coded.
pub open spec fn mvd_at_ok(cu: CodingUnit, l: int, j: int) -> bool {
    &&& l < cu.mvd_coding@.len() && j < cu.mvd_coding@[l]@.len()
    &&& mvd_ok(cu.mvd_coding@[l]@[j])
}

/// What coding the unit's syntax reads exists and its arithmetic stays in range.
#[verifier::opaque]
pub open spec fn cu_syntax_ok(s: CuScope, p: CuParams, e: EncoderContext, st: MvdState) -> bool {
    let cu = s.cu;
    let pm = pm_of(cu);
    &&& cu.width * cu.height <= usize::MAX
    &&& 16 * e.sub_width_c * e.sub_height_c <= usize::MAX
    &&& e.sub_width_c > 0 && e.sub_height_c > 0
    &&& p.min_tb_size_y * p.min_tb_size_y <= usize::MAX
    &&& (pm == ModeType::MODE_INTRA || pm == ModeType::MODE_PLT) ==> {
        &&& (cu.tree_type == TreeType::SINGLE_TREE || cu.tree_type == TreeType::DUAL_TREE_LUMA) && !cu.pred_mode_plt_flag
            && !cu.intra_bdpcm_luma_flag && !cu.intra_mip_flag ==> {
            &&& p.mrl_enabled_flag ==> p.ctb_size_y > 0
            &&& p.log2_ctb_size < usize::BITS
            &&& luma_mode_ok(cu.intra_pred_mode[0].spec_value())
            &&& s.left_cu matches Some(c) ==> luma_mode_ok(c.intra_pred_mode[0].spec_value())
            &&& s.above_cu matches Some(c) ==> luma_mode_ok(c.intra_pred_mode[0].spec_value())
        }
        &&& !(p.cclm_enabled_flag && p.qtbtt_dual_tree_intra_flag && s.slice_type == SliceType::I && e.ctb_log2_size_y >= 6)
    }
    &&& inter_mv_or_ibc(s) ==> mvd_at_ok(cu, 0, 0)
    &&& inter_mv_branch(s) ==> {
        &&& cu.inter_pred_idc != 1 ==> mvd_at_ok(cu, 0, 0) && (p.motion_model_idc > 0 ==> mvd_at_ok(cu, 0, 1)) && (
        p.motion_model_idc > 1 ==> mvd_at_ok(cu, 0, 2))
        &&& cu.inter_pred_idc != 0 && !l1_zeroed(s, p) ==> (!cu.sym_mvd_flag ==> mvd_at_ok(cu, 1, 0)) && (p.motion_model_idc
            > 0 ==> mvd_at_ok(cu, 1, 1)) && (p.motion_model_idc > 1 ==> mvd_at_ok(cu, 1, 2))
        &&& cu.inter_pred_idc != 0 && !l1_zeroed(s, p) && cu.sym_mvd_flag ==> {
            let l0 = if cu.inter_pred_idc == 1 { (0isize, 0isize) } else { st.mvd_l0 };
            l0.0 != isize::MIN && l0.1 != isize::MIN
        }
        &&& p.bcw_enabled_flag && cu.inter_pred_idc == 2 ==> {
            &&& cu.ref_idx[0] < p.luma_weight_l0_flag@.len()
            &&& !p.luma_weight_l0_flag@[cu.ref_idx[0] as int] ==> cu.ref_idx[1] < p.luma_weight_l1_flag@.len()
            &&& !p.luma_weight_l0_flag@[cu.ref_idx[0] as int] && !p.luma_weight_l1_flag@[cu.ref_idx[1] as int] ==> cu.ref_idx[0]
                < p.chroma_weight_l0_flag@.len()
            &&& !p.luma_weight_l0_flag@[cu.ref_idx[0] as int] && !p.luma_weight_l1_flag@[cu.ref_idx[1] as int]
                && !p.chroma_weight_l0_flag@[cu.ref_idx[0] as int] ==> cu.ref_idx[1] < p.chroma_weight_l1_flag@.len()
        }
    }
    &&& cu.coded_flag && pm == ModeType::MODE_INTRA && p.sbt_enabled_flag ==> cu.merge_data is Some
    &&& cu.coded_flag && cu.tree_type != TreeType::DUAL_TREE_CHROMA && p.isp_split_type == IntraSubpartitionsSplitType::ISP_VER_SPLIT
        ==> p.num_intra_subpartitions > 0
}

/// The unit codes a block vector or its own motion.
pub open spec fn inter_mv_or_ibc(s: CuScope) -> bool {
    let cu = s.cu;
    &&& pm_of(cu) != ModeType::MODE_INTRA && pm_of(cu) != ModeType::MODE_PLT
    &&& cu.tree_type != TreeType::DUAL_TREE_CHROMA
    &&& !cu.general_merge_flag
    &&& pm_of(cu) == ModeType::MODE_IBC
}

/// `1` for true.
fn fl(b: bool) -> (r: usize)
    ensures
        r == flag(b),
{
    if b { 1 } else { 0 }
}

/// Appends element `ctx` with value `val` to `v` when `cond` holds.
fn push_if(v: &mut Vec<(CabacContext, usize)>, cond: bool, ctx: CabacContext, val: usize)
    ensures
        final(v)@ == old(v)@ + opt_el(cond, ctx, val),
{
    proof {
        reveal(opt_el);
    }
    if cond {
        v.push((ctx, val));
    }
    proof {
        assert(final(v)@ =~= old(v)@ + opt_el(cond, ctx, val));
    }
}

/// Appends the `mvd_coding` elements of `mvd` to `v`.
fn push_mvd(v: &mut Vec<(CabacContext, usize)>, mvd: &MvdCoding)
    requires
        mvd_ok(*mvd),
    ensures
        final(v)@ == old(v)@ + mvd_elements(*mvd),
{
    let l = mvd_element_list(mvd);
    let ghost v0 = v@;
    let mut i: usize = 0;
    while i < l.len()
        invariant
            i <= l@.len(),
            v@ =~= v0 + l@.take(i as int),
        decreases l@.len() - i,
    {
        v.push(l[i]);
        i += 1;
        proof {
            assert(l@.take(i as int) =~= l@.take(i - 1).push(l@[i - 1]));
        }
    }
    proof {
        assert(l@.take(l@.len() as int) =~= l@);
    }
}

/// Appends the control point differences of list `l` in use.
fn push_mvd_cps(v: &mut Vec<(CabacContext, usize)>, cu: &CodingUnit, l: usize, mmi: usize)
    requires
        l < 2,
        mmi > 0 ==> mvd_at_ok(*cu, l as int, 1),
        mmi > 1 ==> mvd_at_ok(*cu, l as int, 2),
    ensures
        final(v)@ == old(v)@ + mvd_cps(*cu, l as int, mmi),
{
    let ghost v0 = v@;
    if mmi > 0 {
        push_mvd(v, &cu.mvd_coding[l][1]);
    }
    let ghost v1 = v@;
    if mmi > 1 {
        push_mvd(v, &cu.mvd_coding[l][2]);
    }
    proof {
        assert(v@ =~= v0 + mvd_cps(*cu, l as int, mmi));
    }
}

fn is_intra_or_plt(m: ModeType) -> (r: bool)
    ensures
        r == (m == ModeType::MODE_INTRA || m == ModeType::MODE_PLT),
{
    m == ModeType::MODE_INTRA || m == ModeType::MODE_PLT
}

/// Appends the skip, prediction mode and block copy flags.
fn push_head(v: &mut Vec<(CabacContext, usize)>, s: &CuScope, p: &CuParams)
    ensures
        final(v)@ == old(v)@ + cu_head_elements(*s, *p),
{
    proof {
        reveal(cu_head_elements);
    }
    let ghost v0 = v@;
    let cu = &s.cu;
    let ch: usize = if cu.tree_type == TreeType::DUAL_TREE_CHROMA { 1 } else { 0 };
    let pm = cu.pred_mode[ch];
    let sq4 = cu.width == 4 && cu.height == 4;
    let w64 = cu.width <= 64 && cu.height <= 64;
    let not_i = s.slice_type != SliceType::I;
    if not_i || p.ibc_enabled_flag {
        push_if(
            v,
            cu.tree_type != TreeType::DUAL_TREE_CHROMA && ((!sq4 && cu.mode_type != ModeType::MODE_TYPE_INTRA) || (p.ibc_enabled_flag && w64)),
            CabacContext::CuSkipFlag,
            fl(cu.skip_flag),
        );
        push_if(
            v,
            !cu.skip_flag && not_i && !sq4 && cu.mode_type == ModeType::MODE_TYPE_ALL,
            CabacContext::PredModeFlag,
            fl(cu.pred_mode_flag),
        );
        push_if(
            v,
            ((!not_i && !cu.skip_flag) || (not_i && pm != ModeType::MODE_INTRA && !cu.skip_flag)) && w64 && cu.mode_type
                != ModeType::MODE_TYPE_INTER && p.ibc_enabled_flag && cu.tree_type != TreeType::DUAL_TREE_CHROMA,
            CabacContext::PredModeIbcFlag,
            fl(cu.pred_mode_ibc_flag),
        );
    }
    proof {
        assert(v@ =~= v0 + cu_head_elements(*s, *p));
    }
}

/// The most probable mode syntax of the unit in scope.
fn mpm_of_scope(s: &CuScope, p: &CuParams) -> (r: (bool, usize, usize))
    requires
        p.log2_ctb_size < usize::BITS,
        luma_mode_ok(s.cu.intra_pred_mode[0].spec_value()),
        s.left_cu matches Some(c) ==> luma_mode_ok(c.intra_pred_mode[0].spec_value()),
        s.above_cu matches Some(c) ==> luma_mode_ok(c.intra_pred_mode[0].spec_value()),
    ensures
        r == cu_mpm(*s, *p),
{
    proof {
        reveal(cu_mpm);
    }
    let left = match &s.left_cu {
        Some(c) => Some(c),
        None => None,
    };
    let above = match &s.above_cu {
        Some(c) => Some(c),
        None => None,
    };
    s.cu.get_intra_luma_mpm_flag_and_idx_and_remainder(left, above, p.log2_ctb_size)
}

/// Appends the luma elements of a unit predicted by angle.
#[verifier::spinoff_prover]
#[verifier::rlimit(100)]
fn push_luma_angular(v: &mut Vec<(CabacContext, usize)>, s: &CuScope, p: &CuParams)
    requires
        p.mrl_enabled_flag ==> p.ctb_size_y > 0,
        p.log2_ctb_size < usize::BITS,
        luma_mode_ok(s.cu.intra_pred_mode[0].spec_value()),
        s.left_cu matches Some(c) ==> luma_mode_ok(c.intra_pred_mode[0].spec_value()),
        s.above_cu matches Some(c) ==> luma_mode_ok(c.intra_pred_mode[0].spec_value()),
        s.cu.width * s.cu.height <= usize::MAX,
        p.min_tb_size_y * p.min_tb_size_y <= usize::MAX,
    ensures
        final(v)@ == old(v)@ + cu_luma_angular_elements(*s, *p),
{
    proof {
        reveal(cu_luma_angular_elements);
    }
    let cu = &s.cu;
    let ghost va = v@;
    push_if(v, p.mrl_enabled_flag && cu.y % p.ctb_size_y > 0, CabacContext::IntraLumaRefIdx, cu.intra_luma_ref_idx);
    push_if(
        v,
        p.isp_enabled_flag && cu.intra_luma_ref_idx == 0 && cu.width <= p.max_tb_size_y && cu.height <= p.max_tb_size_y
            && cu.width * cu.height > p.min_tb_size_y * p.min_tb_size_y && !cu.act_enabled_flag,
        CabacContext::IntraSubpartitionsModeFlag,
        fl(cu.intra_subpartitions_mode_flag),
    );
    push_if(v, cu.intra_subpartitions_mode_flag, CabacContext::IntraSubpartitionsSplitFlag, fl(cu.intra_subpartitions_split_flag));
    let (f, idx, rem) = mpm_of_scope(s, p);
    push_if(v, cu.intra_luma_ref_idx == 0, CabacContext::IntraLumaMpmFlag, fl(f));
    if f {
        let np = cu.get_intra_luma_not_planar_flag();
        push_if(v, cu.intra_luma_ref_idx == 0, CabacContext::IntraLumaNotPlanarFlag, fl(np));
        push_if(v, np, CabacContext::IntraLumaMpmIdx, idx);
    } else {
        v.push((CabacContext::IntraLumaMpmRemainder, rem));
    }
    proof {
        assert(v@ =~= va + cu_luma_angular_elements(*s, *p));
    }
}

/// Appends the luma intra elements.
#[verifier::spinoff_prover]
#[verifier::rlimit(60)]
fn push_luma_intra(v: &mut Vec<(CabacContext, usize)>, s: &CuScope, p: &CuParams)
    requires
        (s.cu.tree_type == TreeType::SINGLE_TREE || s.cu.tree_type == TreeType::DUAL_TREE_LUMA) && !s.cu.pred_mode_plt_flag
            && !s.cu.intra_bdpcm_luma_flag && !s.cu.intra_mip_flag ==> {
            &&& p.mrl_enabled_flag ==> p.ctb_size_y > 0
            &&& p.log2_ctb_size < usize::BITS
            &&& luma_mode_ok(s.cu.intra_pred_mode[0].spec_value())
            &&& s.left_cu matches Some(c) ==> luma_mode_ok(c.intra_pred_mode[0].spec_value())
            &&& s.above_cu matches Some(c) ==> luma_mode_ok(c.intra_pred_mode[0].spec_value())
        },
        s.cu.width * s.cu.height <= usize::MAX,
        p.min_tb_size_y * p.min_tb_size_y <= usize::MAX,
    ensures
        final(v)@ == old(v)@ + cu_luma_intra_elements(*s, *p),
{
    proof {
        reveal(cu_luma_intra_elements);
    }
    let ghost v0 = v@;
    let cu = &s.cu;
    if (cu.tree_type == TreeType::SINGLE_TREE || cu.tree_type == TreeType::DUAL_TREE_LUMA) && !cu.pred_mode_plt_flag {
        push_if(
            v,
            p.bdpcm_enabled_flag && cu.width <= p.max_ts_size && cu.height <= p.max_ts_size,
            CabacContext::IntraBdpcmLumaFlag,
            fl(cu.intra_bdpcm_luma_flag),
        );
        let ghost v1 = v@;
        if cu.intra_bdpcm_luma_flag {
            v.push((CabacContext::IntraBdpcmLumaDirFlag, fl(cu.intra_bdpcm_luma_dir_flag)));
        } else {
            push_if(v, p.mip_enabled_flag, CabacContext::IntraMipFlag, fl(cu.intra_mip_flag));
            let ghost v2 = v@;
            if cu.intra_mip_flag {
                v.push((CabacContext::IntraMipTransposedFlag, fl(cu.intra_mip_transposed_flag)));
                v.push((CabacContext::IntraMipMode, cu.intra_mip_mode));
            } else {
                push_luma_angular(v, s, p);
            }
        }
    }
    proof {
        assert(v@ =~= v0 + cu_luma_intra_elements(*s, *p));
    }
}

/// Appends the chroma intra elements.
fn push_chroma_intra(v: &mut Vec<(CabacContext, usize)>, s: &CuScope, p: &CuParams, e: &EncoderContext)
    requires
        e.sub_width_c > 0 && e.sub_height_c > 0,
        !(p.cclm_enabled_flag && p.qtbtt_dual_tree_intra_flag && s.slice_type == SliceType::I && e.ctb_log2_size_y >= 6),
    ensures
        final(v)@ == old(v)@ + cu_chroma_intra_elements(*s, *p, *e),
{
    proof {
        reveal(cu_chroma_intra_elements);
    }
    let ghost v0 = v@;
    let cu = &s.cu;
    if (cu.tree_type == TreeType::SINGLE_TREE || cu.tree_type == TreeType::DUAL_TREE_CHROMA) && p.chroma_present
        && !cu.pred_mode_plt_flag && !cu.act_enabled_flag {
        push_if(
            v,
            cu.width / e.sub_width_c <= p.max_ts_size && cu.height / e.sub_height_c <= p.max_ts_size && p.bdpcm_enabled_flag,
            CabacContext::IntraBdpcmChromaFlag,
            fl(cu.intra_bdpcm_chroma_flag),
        );
        if cu.intra_bdpcm_chroma_flag {
            v.push((CabacContext::IntraBdpcmChromaDirFlag, fl(cu.intra_bdpcm_chroma_dir_flag)));
        } else {
            let enabled = cu.is_cclm_enabled(p.cclm_enabled_flag, p.qtbtt_dual_tree_intra_flag, s.slice_type, e);
            let cf = cu.get_cclm_mode_flag();
            push_if(v, enabled, CabacContext::CclmModeFlag, fl(cf));
            if cf {
                v.push((CabacContext::CclmModeIdx, cu.get_cclm_mode_idx()));
            } else {
                v.push((CabacContext::IntraChromaPredMode, cu.intra_chroma_pred_mode));
            }
        }
    }
    proof {
        assert(v@ =~= v0 + cu_chroma_intra_elements(*s, *p, *e));
    }
}

/// Appends the prediction direction, affine and symmetric difference elements.
fn push_inter_prefix(v: &mut Vec<(CabacContext, usize)>, s: &CuScope, p: &CuParams)
    ensures
        final(v)@ == old(v)@ + inter_prefix_elements(*s, *p),
{
    proof {
        reveal(inter_prefix_elements);
    }
    let ghost v0 = v@;
    let cu = &s.cu;
    let ipi = cu.inter_pred_idc;
    let af = cu.inter_affine_flag;
    push_if(v, s.slice_type == SliceType::B, CabacContext::InterPredIdc, ipi);
    if p.affine_enabled_flag && cu.width >= 16 && cu.height >= 16 {
        v.push((CabacContext::InterAffineFlag, fl(af)));
        push_if(v, p.six_param_affine_enabled_flag && af, CabacContext::CuAffineTypeFlag, fl(cu.affine_type_flag));
    }
    push_if(
        v,
        p.smvd_enabled_flag && !p.mvd_l1_zero_flag && ipi == 2 && !af && p.ref_idx_sym_l0 > -1 && p.ref_idx_sym_l1 > -1,
        CabacContext::SymMvdFlag,
        fl(cu.sym_mvd_flag),
    );
    proof {
        assert(v@ =~= v0 + inter_prefix_elements(*s, *p));
    }
}

/// Appends the list 0 elements.
fn push_inter_l0(v: &mut Vec<(CabacContext, usize)>, s: &CuScope, p: &CuParams, e: &EncoderContext)
    requires
        s.cu.inter_pred_idc != 1 ==> mvd_at_ok(s.cu, 0, 0) && (p.motion_model_idc > 0 ==> mvd_at_ok(s.cu, 0, 1)) && (
        p.motion_model_idc > 1 ==> mvd_at_ok(s.cu, 0, 2)),
    ensures
        final(v)@ == old(v)@ + inter_l0_elements(*s, *p, *e),
{
    proof {
        reveal(inter_l0_elements);
    }
    let ghost v0 = v@;
    let cu = &s.cu;
    if cu.inter_pred_idc != 1 {
        push_if(v, e.num_ref_idx_active[0] > 1 && !cu.sym_mvd_flag, CabacContext::RefIdxL0, cu.ref_idx[0]);
        push_mvd(v, &cu.mvd_coding[0][0]);
        push_mvd_cps(v, cu, 0, p.motion_model_idc);
        v.push((CabacContext::MvpL0Flag, fl(cu.mvp_l0_flag)));
    }
    proof {
        assert(v@ =~= v0 + inter_l0_elements(*s, *p, *e));
    }
}

/// Appends the list 1 elements.
fn push_inter_l1(v: &mut Vec<(CabacContext, usize)>, s: &CuScope, p: &CuParams, e: &EncoderContext)
    requires
        s.cu.inter_pred_idc != 0 && !l1_zeroed(*s, *p) ==> (!s.cu.sym_mvd_flag ==> mvd_at_ok(s.cu, 1, 0)) && (p.motion_model_idc
            > 0 ==> mvd_at_ok(s.cu, 1, 1)) && (p.motion_model_idc > 1 ==> mvd_at_ok(s.cu, 1, 2)),
    ensures
        final(v)@ == old(v)@ + inter_l1_elements(*s, *p, *e),
{
    proof {
        reveal(inter_l1_elements);
    }
    let ghost v0 = v@;
    let cu = &s.cu;
    if cu.inter_pred_idc != 0 {
        push_if(v, e.num_ref_idx_active[1] > 1 && !cu.sym_mvd_flag, CabacContext::RefIdxL1, cu.ref_idx[1]);
        let ghost va = v@;
        if !(p.mvd_l1_zero_flag && cu.inter_pred_idc == 2) {
            if !cu.sym_mvd_flag {
                push_mvd(v, &cu.mvd_coding[1][0]);
            }
            push_mvd_cps(v, cu, 1, p.motion_model_idc);
        }
        v.push((CabacContext::MvpL1Flag, fl(cu.mvp_l1_flag)));
    }
    proof {
        assert(v@ =~= v0 + inter_l1_elements(*s, *p, *e));
    }
}

/// The motion vector difference state after a unit with its own motion.
fn inter_state(s: &CuScope, p: &CuParams, st: &MvdState) -> (n: MvdState)
    requires
        inter_mv_branch(*s),
        s.cu.inter_pred_idc != 0 && !l1_zeroed(*s, *p) && s.cu.sym_mvd_flag ==> {
            let l0 = if s.cu.inter_pred_idc == 1 { (0isize, 0isize) } else { st.mvd_l0 };
            l0.0 != isize::MIN && l0.1 != isize::MIN
        },
    ensures
        n == mvd_state_after(*s, *p, *st),
{
    proof {
        reveal(mvd_state_after);
    }
    let cu = &s.cu;
    let l0 = if cu.inter_pred_idc == 1 { (0isize, 0isize) } else { st.mvd_l0 };
    let zeroed = p.mvd_l1_zero_flag && cu.inter_pred_idc == 2;
    let l1 = if cu.inter_pred_idc == 0 {
        (0isize, 0isize)
    } else if zeroed {
        (0isize, 0isize)
    } else if cu.sym_mvd_flag {
        (-l0.0, -l0.1)
    } else {
        st.mvd_l1
    };
    let cp1 = if cu.inter_pred_idc != 0 && zeroed { [(0isize, 0isize), (0isize, 0isize), (0isize, 0isize)] } else { st.mvd_cp_l1 };
    MvdState { mvd_l0: l0, mvd_l1: l1, mvd_cp_l0: st.mvd_cp_l0, mvd_cp_l1: cp1 }
}

/// Appends the motion vector resolution and bi-prediction weight elements, given
/// the state after the unit.
fn push_inter_tail(v: &mut Vec<(CabacContext, usize)>, s: &CuScope, p: &CuParams, st: &MvdState, n: &MvdState)
    requires
        *n == mvd_state_after(*s, *p, *st),
        p.bcw_enabled_flag && s.cu.inter_pred_idc == 2 ==> {
            &&& s.cu.ref_idx[0] < p.luma_weight_l0_flag@.len()
            &&& !p.luma_weight_l0_flag@[s.cu.ref_idx[0] as int] ==> s.cu.ref_idx[1] < p.luma_weight_l1_flag@.len()
            &&& !p.luma_weight_l0_flag@[s.cu.ref_idx[0] as int] && !p.luma_weight_l1_flag@[s.cu.ref_idx[1] as int] ==> s.cu.ref_idx[0]
                < p.chroma_weight_l0_flag@.len()
            &&& !p.luma_weight_l0_flag@[s.cu.ref_idx[0] as int] && !p.luma_weight_l1_flag@[s.cu.ref_idx[1] as int]
                && !p.chroma_weight_l0_flag@[s.cu.ref_idx[0] as int] ==> s.cu.ref_idx[1] < p.chroma_weight_l1_flag@.len()
        },
        s.cu.width * s.cu.height <= usize::MAX,
    ensures
        final(v)@ == old(v)@ + inter_tail_elements(*s, *p, *st),
{
    proof {
        reveal(inter_tail_elements);
        reveal(amvr_coded);
        reveal(bcw_coded);
    }
    let ghost v0 = v@;
    let cu = &s.cu;
    let af = cu.inter_affine_flag;
    let l0 = n.mvd_l0;
    let l1 = n.mvd_l1;
    let c0 = n.mvd_cp_l0;
    let c1 = n.mvd_cp_l1;
    let amvr = (p.amvr_enabled_flag && !af && ((l0.0 != 0 || l0.1 != 0) || (l1.0 != 0 || l1.1 != 0))) || (p.affine_amvr_enabled_flag && af
        && ((c0[0].0 != 0 || c0[0].1 != 0 || c0[1].0 != 0 || c0[1].1 != 0 || c0[2].0 != 0 || c0[2].1 != 0) || (c1[0].0 != 0
        || c1[0].1 != 0 || c1[1].0 != 0 || c1[1].1 != 0 || c1[2].0 != 0 || c1[2].1 != 0)));
    if amvr {
        v.push((CabacContext::AmvrFlag, fl(cu.amvr_flag)));
        push_if(v, cu.amvr_flag, CabacContext::AmvrPrecisionIdx, cu.amvr_precision_idx);
    }
    let ghost v1 = v@;
    let bcw = p.bcw_enabled_flag && cu.inter_pred_idc == 2 && !p.luma_weight_l0_flag[cu.ref_idx[0]] && !p.luma_weight_l1_flag[cu.ref_idx[1]]
        && !p.chroma_weight_l0_flag[cu.ref_idx[0]] && !p.chroma_weight_l1_flag[cu.ref_idx[1]] && cu.width * cu.height >= 256;
    push_if(v, bcw, CabacContext::BcwIdx, cu.bcw_idx);
    proof {
        assert(amvr == amvr_coded(*s, *p, *st));
        assert(bcw == bcw_coded(*s, *p));
        assert(v@ =~= v0 + inter_tail_elements(*s, *p, *st));
    }
}

/// Appends the elements of a unit with its own motion and returns the motion vector
/// difference state after it.
fn push_inter_mv(v: &mut Vec<(CabacContext, usize)>, s: &CuScope, p: &CuParams, e: &EncoderContext, st: &MvdState) -> (n: MvdState)
    requires
        inter_mv_branch(*s),
        cu_syntax_ok(*s, *p, *e, *st),
    ensures
        final(v)@ == old(v)@ + cu_inter_mv_elements(*s, *p, *e, *st),
        n == mvd_state_after(*s, *p, *st),
{
    proof {
        reveal(cu_inter_mv_elements);
        reveal(cu_syntax_ok);
    }
    let ghost v0 = v@;
    push_inter_prefix(v, s, p);
    push_inter_l0(v, s, p, e);
    push_inter_l1(v, s, p, e);
    let n = inter_state(s, p, st);
    push_inter_tail(v, s, p, st, &n);
    proof {
        assert(v@ =~= v0 + cu_inter_mv_elements(*s, *p, *e, *st));
    }
    n
}

/// Appends the inter elements and returns the motion vector difference state after
/// them.
#[verifier::spinoff_prover]
#[verifier::rlimit(60)]
fn push_inter(v: &mut Vec<(CabacContext, usize)>, s: &CuScope, p: &CuParams, e: &EncoderContext, st: &MvdState) -> (n: MvdState)
    requires
        pm_of(s.cu) != ModeType::MODE_INTRA && pm_of(s.cu) != ModeType::MODE_PLT,
        s.cu.tree_type != TreeType::DUAL_TREE_CHROMA,
        cu_syntax_ok(*s, *p, *e, *st),
    ensures
        final(v)@ == old(v)@ + cu_inter_elements(*s, *p, *e, *st),
        n == mvd_state_after(*s, *p, *st),
{
    proof {
        reveal(cu_inter_elements);
        reveal(cu_syntax_ok);
        reveal(mvd_state_after);
    }
    let ghost v0 = v@;
    let cu = &s.cu;
    let ch: usize = if cu.tree_type == TreeType::DUAL_TREE_CHROMA { 1 } else { 0 };
    push_if(v, cu.skip_flag, CabacContext::GeneralMergeFlag, fl(cu.general_merge_flag));
    let ghost v1 = v@;
    let mut n = MvdState { mvd_l0: st.mvd_l0, mvd_l1: st.mvd_l1, mvd_cp_l0: st.mvd_cp_l0, mvd_cp_l1: st.mvd_cp_l1 };
    if cu.general_merge_flag {
    } else if cu.pred_mode[ch] == ModeType::MODE_IBC {
        push_mvd(v, &cu.mvd_coding[0][0]);
        push_if(v, e.max_num_ibc_merge_cand > 1, CabacContext::MvpL0Flag, fl(cu.mvp_l0_flag));
        push_if(v, p.amvr_enabled_flag && (st.mvd_l0.0 != 0 || st.mvd_l0.1 != 0), CabacContext::AmvrPrecisionIdx, cu.amvr_precision_idx);
    } else {
        n = push_inter_mv(v, s, p, e, st);
    }
    proof {
        assert(v@ =~= v0 + cu_inter_elements(*s, *p, *e, *st));
    }
    n
}

/// Appends the subblock transform elements.
fn push_sbt(v: &mut Vec<(CabacContext, usize)>, s: &CuScope, p: &CuParams)
    requires
        pm_of(s.cu) == ModeType::MODE_INTRA && p.sbt_enabled_flag ==> s.cu.merge_data is Some,
    ensures
        final(v)@ == old(v)@ + cu_sbt_elements(*s, *p),
{
    proof {
        reveal(cu_sbt_elements);
    }
    let ghost v0 = v@;
    let cu = &s.cu;
    let ch: usize = if cu.tree_type == TreeType::DUAL_TREE_CHROMA { 1 } else { 0 };
    let vh = cu.width >= 8;
    let vq = cu.width >= 16;
    let hh = cu.height >= 8;
    let hq = cu.height >= 16;
    if cu.pred_mode[ch] == ModeType::MODE_INTRA && p.sbt_enabled_flag {
        let ciip = match &cu.merge_data {
            Some(m) => m.ciip_flag,
            None => false,
        };
        if !ciip && cu.width <= p.max_tb_size_y && cu.height <= p.max_tb_size_y {
            push_if(v, vh || hh, CabacContext::CuSbtFlag, fl(cu.sbt_flag));
            if cu.sbt_flag {
                push_if(v, (vh || hh) && (vq || hq), CabacContext::CuSbtQuadFlag, fl(cu.sbt_quad_flag));
                push_if(
                    v,
                    (cu.sbt_quad_flag && vq && hq) || (!cu.sbt_quad_flag && vh && hh),
                    CabacContext::CuSbtHorizontalFlag,
                    fl(cu.sbt_horizontal_flag),
                );
                v.push((CabacContext::CuSbtPosFlag, fl(cu.sbt_pos_flag)));
            }
        }
    }
    proof {
        assert(v@ =~= v0 + cu_sbt_elements(*s, *p));
    }
}

/// Appends the transform index elements.
fn push_transform_indices(v: &mut Vec<(CabacContext, usize)>, s: &CuScope, p: &CuParams, e: &EncoderContext)
    requires
        e.sub_width_c > 0 && e.sub_height_c > 0,
        s.cu.tree_type != TreeType::DUAL_TREE_CHROMA && p.isp_split_type == IntraSubpartitionsSplitType::ISP_VER_SPLIT
            ==> p.num_intra_subpartitions > 0,
    ensures
        final(v)@ == old(v)@ + cu_transform_index_elements(*s, *p, *e),
{
    proof {
        reveal(cu_transform_index_elements);
    }
    let ghost v0 = v@;
    let cu = &s.cu;
    let ch: usize = if cu.tree_type == TreeType::DUAL_TREE_CHROMA { 1 } else { 0 };
    let (lw, lh) = if cu.tree_type == TreeType::DUAL_TREE_CHROMA {
        (cu.width / e.sub_width_c, cu.height / e.sub_height_c)
    } else if p.isp_split_type == IntraSubpartitionsSplitType::ISP_VER_SPLIT {
        (cu.width / p.num_intra_subpartitions, cu.height / p.num_intra_subpartitions)
    } else {
        (cu.width, cu.height)
    };
    let m = if lw <= lh { lw } else { lh };
    let big = if cu.width >= cu.height { cu.width } else { cu.height };
    let t = cu.tree_type;
    let c = p.first_tu_coded;
    let ts = p.first_tu_transform_skip;
    let not_ts = (t == TreeType::DUAL_TREE_CHROMA || !c[0] || !ts[0]) && (t == TreeType::DUAL_TREE_LUMA || ((!c[1] || !ts[1])
        && (!c[2] || !ts[2])));
    push_if(
        v,
        m >= 4 && p.lfnst_enabled_flag && cu.pred_mode[ch] == ModeType::MODE_INTRA && not_ts && (t == TreeType::DUAL_TREE_CHROMA
            || !p.intra_mip_flag_at || m >= 16) && big <= p.max_tb_size_y && (p.isp_split_type
            != IntraSubpartitionsSplitType::ISP_NO_SPLIT || !p.lfnst_dc_only) && p.lfnst_zero_out_sig_coeff_flag,
        CabacContext::LfnstIdx,
        cu.lfnst_idx,
    );
    push_if(
        v,
        t != TreeType::DUAL_TREE_CHROMA && cu.lfnst_idx == 0 && !ts[0] && big <= 32 && p.isp_split_type
            == IntraSubpartitionsSplitType::ISP_NO_SPLIT && !cu.sbt_flag && p.mts_zero_out_sig_coeff_flag && !p.mts_dc_only,
        CabacContext::MtsIdx,
        cu.mts_idx,
    );
    proof {
        assert(v@ =~= v0 + cu_transform_index_elements(*s, *p, *e));
    }
}

/// What the coding unit conditions give the element list.
proof fn lemma_cu_syntax_facts(s: CuScope, p: CuParams, e: EncoderContext, st: MvdState)
    requires
        cu_syntax_ok(s, p, e, st),
    ensures
        s.cu.width * s.cu.height <= usize::MAX,
        16 * e.sub_width_c * e.sub_height_c <= usize::MAX,
        e.sub_width_c > 0 && e.sub_height_c > 0,
        p.min_tb_size_y * p.min_tb_size_y <= usize::MAX,
        (pm_of(s.cu) == ModeType::MODE_INTRA || pm_of(s.cu) == ModeType::MODE_PLT) ==> {
            &&& (s.cu.tree_type == TreeType::SINGLE_TREE || s.cu.tree_type == TreeType::DUAL_TREE_LUMA) && !s.cu.pred_mode_plt_flag
                && !s.cu.intra_bdpcm_luma_flag && !s.cu.intra_mip_flag ==> {
                &&& p.mrl_enabled_flag ==> p.ctb_size_y > 0
                &&& p.log2_ctb_size < usize::BITS
                &&& luma_mode_ok(s.cu.intra_pred_mode[0].spec_value())
                &&& s.left_cu matches Some(c) ==> luma_mode_ok(c.intra_pred_mode[0].spec_value())
                &&& s.above_cu matches Some(c) ==> luma_mode_ok(c.intra_pred_mode[0].spec_value())
            }
            &&& !(p.cclm_enabled_flag && p.qtbtt_dual_tree_intra_flag && s.slice_type == SliceType::I && e.ctb_log2_size_y >= 6)
        },
        s.cu.coded_flag && pm_of(s.cu) == ModeType::MODE_INTRA && p.sbt_enabled_flag ==> s.cu.merge_data is Some,
        s.cu.coded_flag && s.cu.tree_type != TreeType::DUAL_TREE_CHROMA && p.isp_split_type == IntraSubpartitionsSplitType::ISP_VER_SPLIT
            ==> p.num_intra_subpartitions > 0,
        !inter_mv_branch(s) ==> mvd_state_after(s, p, st) == st,
{
    reveal(cu_syntax_ok);
    reveal(mvd_state_after);
}

/// Appends the prefix elements.
fn push_prefix(v: &mut Vec<(CabacContext, usize)>, s: &CuScope, p: &CuParams, e: &EncoderContext)
    requires
        s.cu.width * s.cu.height <= usize::MAX,
        16 * e.sub_width_c * e.sub_height_c <= usize::MAX,
        e.sub_height_c > 0,
    ensures
        final(v)@ == old(v)@ + cu_prefix_elements(*s, *p, *e),
{
    proof {
        reveal(cu_prefix_elements);
    }
    let ghost v0 = v@;
    let cu = &s.cu;
    let ch: usize = if cu.tree_type == TreeType::DUAL_TREE_CHROMA { 1 } else { 0 };
    let pm = cu.pred_mode[ch];
    push_head(v, s, p);
    proof {
        assert(16 * e.sub_width_c <= 16 * e.sub_width_c * e.sub_height_c) by (nonlinear_arith)
            requires e.sub_height_c > 0;
    }
    let plt = pm == ModeType::MODE_INTRA && p.palette_enabled_flag && cu.width <= 64 && cu.height <= 64 && !cu.skip_flag
        && cu.mode_type != ModeType::MODE_TYPE_INTER && cu.width * cu.height > (if cu.tree_type != TreeType::DUAL_TREE_CHROMA {
        16
    } else {
        16 * e.sub_width_c * e.sub_height_c
    }) && (cu.mode_type != ModeType::MODE_TYPE_INTRA || cu.tree_type != TreeType::DUAL_TREE_CHROMA);
    proof {
        assert(plt == plt_coded(*s, *p, *e));
    }
    push_if(v, plt, CabacContext::PredModePltFlag, fl(cu.pred_mode_plt_flag));
    push_if(
        v,
        pm == ModeType::MODE_INTRA && p.act_enabled_flag && cu.tree_type == TreeType::SINGLE_TREE,
        CabacContext::CuActEnabledFlag,
        fl(cu.act_enabled_flag),
    );
    proof {
        assert(v@ =~= v0 + cu_prefix_elements(*s, *p, *e));
    }
}

/// Appends the mode elements and returns the motion vector difference state after
/// them.
fn push_modes(v: &mut Vec<(CabacContext, usize)>, s: &CuScope, p: &CuParams, e: &EncoderContext, st: &MvdState) -> (n: MvdState)
    requires
        cu_syntax_ok(*s, *p, *e, *st),
    ensures
        final(v)@ == old(v)@ + cu_mode_elements(*s, *p, *e, *st),
        n == mvd_state_after(*s, *p, *st),
{
    proof {
        reveal(cu_mode_elements);
        lemma_cu_syntax_facts(*s, *p, *e, *st);
    }
    let ghost v0 = v@;
    let cu = &s.cu;
    let ch: usize = if cu.tree_type == TreeType::DUAL_TREE_CHROMA { 1 } else { 0 };
    let pm = cu.pred_mode[ch];
    let mut n = MvdState { mvd_l0: st.mvd_l0, mvd_l1: st.mvd_l1, mvd_cp_l0: st.mvd_cp_l0, mvd_cp_l1: st.mvd_cp_l1 };
    if is_intra_or_plt(pm) {
        push_luma_intra(v, s, p);
        push_chroma_intra(v, s, p, e);
    } else if cu.tree_type != TreeType::DUAL_TREE_CHROMA {
        n = push_inter(v, s, p, e, st);
    }
    proof {
        assert(v@ =~= v0 + cu_mode_elements(*s, *p, *e, *st));
    }
    n
}

/// Appends the suffix elements.
fn push_suffix(v: &mut Vec<(CabacContext, usize)>, s: &CuScope, p: &CuParams, e: &EncoderContext)
    requires
        e.sub_width_c > 0 && e.sub_height_c > 0,
        s.cu.coded_flag && pm_of(s.cu) == ModeType::MODE_INTRA && p.sbt_enabled_flag ==> s.cu.merge_data is Some,
        s.cu.coded_flag && s.cu.tree_type != TreeType::DUAL_TREE_CHROMA && p.isp_split_type == IntraSubpartitionsSplitType::ISP_VER_SPLIT
            ==> p.num_intra_subpartitions > 0,
    ensures
        final(v)@ == old(v)@ + cu_suffix_elements(*s, *p, *e),
{
    proof {
        reveal(cu_suffix_elements);
    }
    let ghost v0 = v@;
    let cu = &s.cu;
    let ch: usize = if cu.tree_type == TreeType::DUAL_TREE_CHROMA { 1 } else { 0 };
    let pm = cu.pred_mode[ch];
    push_if(
        v,
        pm != ModeType::MODE_INTRA && !cu.pred_mode_plt_flag && !cu.general_merge_flag,
        CabacContext::CuCodedFlag,
        fl(cu.coded_flag),
    );
    if cu.coded_flag {
        push_sbt(v, s, p);
        push_if(
            v,
            p.act_enabled_flag && pm != ModeType::MODE_INTRA && cu.tree_type == TreeType::SINGLE_TREE,
            CabacContext::CuActEnabledFlag,
            fl(cu.act_enabled_flag),
        );
        push_transform_indices(v, s, p, e);
    }
    proof {
        assert(v@ =~= v0 + cu_suffix_elements(*s, *p, *e));
    }
}

/// The `coding_unit` syntax elements of the unit in scope, and the motion vector
/// difference state after it.
fn cu_element_list(s: &CuScope, p: &CuParams, e: &EncoderContext, st: &MvdState) -> (r: (Vec<(CabacContext, usize)>, MvdState))
    requires
        cu_syntax_ok(*s, *p, *e, *st),
    ensures
        r.0@ == cu_elements(*s, *p, *e, *st),
        r.1 == mvd_state_after(*s, *p, *st),
{
    proof {
        reveal(cu_elements);
        lemma_cu_syntax_facts(*s, *p, *e, *st);
    }
    let mut v: Vec<(CabacContext, usize)> = Vec::new();
    push_prefix(&mut v, s, p, e);
    let n = push_modes(&mut v, s, p, e, st);
    push_suffix(&mut v, s, p, e);
    proof {
        assert(v@ =~= cu_elements(*s, *p, *e, *st));
    }
    (v, n)
}

impl CtuEncoder {
    /// Codes the `coding_unit` syntax of the unit in scope, its transform tree
    /// excepted: the elements of `cu_elements` in order, each with its contexts; and
    /// updates the motion vector difference state as coding the unit does.
    pub fn encode_coding_unit(&mut self, bins: &mut Bins, scope: &CuScope, params: &CuParams, state: &mut MvdState)
        requires
            cu_syntax_ok(*scope, *params, old(self).encoder_context, *old(state)),
            forall|k: int|
                0 <= k < cu_elements(*scope, *params, old(self).encoder_context, *old(state)).len() ==> #[trigger] cu_element_ok(
                    old(self).encoder_context,
                    *scope,
                    cu_elements(*scope, *params, old(self).encoder_context, *old(state))[k].0,
                    cu_elements(*scope, *params, old(self).encoder_context, *old(state))[k].1,
                ),
            old(self).coder.wf(),
            old(self).coder.engine_ok(),
            old(bins).num_bins + old(self).coder.cabac_bits_outstanding + 9 * 64 * cu_elements(*scope, *params, old(self).encoder_context, *old(state)).len() + 9 * 65 <= usize::MAX,
        ensures
            elements_coded(
                old(self).coder,
                *old(bins),
                final(self).coder,
                *final(bins),
                old(self).encoder_context,
                *scope,
                cu_elements(*scope, *params, old(self).encoder_context, *old(state)),
            ),
            *final(state) == mvd_state_after(*scope, *params, *old(state)),
            final(self).encoder_context == old(self).encoder_context,
            final(self).coder.wf(),
            final(self).coder.engine_ok(),
    {
        let (elems, n) = cu_element_list(scope, params, &self.encoder_context, state);
        *state = n;
        self.encode_elements(bins, &elems, scope);
    }
}

} // verus!
